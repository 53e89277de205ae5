//! The document / revision store.
//!
//! A [`Store`] models the wiki's relational schema: a `document` table keyed
//! by name, and a `document_history` table of immutable revisions in creation
//! order, with globally unique, monotonically assigned ids.  Every document's
//! current-revision pointer refers to one of its own revisions; `wf` states
//! that invariant and every operation preserves it.
//!
//! `append_revision` is the one mutating operation: it upserts the document
//! row, appends a revision, and advances the current pointer, all at once.

use vstd::prelude::*;

verus! {

/// A named wiki page, pointing at its current revision.
#[derive(Debug)]
pub struct Document {
    pub id: i64,
    pub name: String,
    pub last_modified: i64,
    pub current_revision_id: i64,
}

/// One immutable, timestamped full-text snapshot of a document.
#[derive(Debug)]
pub struct Revision {
    pub id: i64,
    pub document_id: i64,
    pub created_at: i64,
    pub modified_by: String,
    pub document_data: String,
}

/// The whole store: documents, revisions in creation order, and the next ids
/// to assign.
#[derive(Debug)]
pub struct Store {
    pub documents: Vec<Document>,
    pub revisions: Vec<Revision>,
    pub next_document_id: i64,
    pub next_revision_id: i64,
}

/// The content of one revision as a read returns it.
#[derive(Debug, Clone)]
pub struct PageContent {
    pub document_data: String,
    pub created_at: i64,
    pub modified_by: String,
}

/// The mathematical value of a [`PageContent`].
pub struct PageContentModel {
    pub document_data: Seq<char>,
    pub created_at: i64,
    pub modified_by: Seq<char>,
}

impl View for PageContent {
    type V = PageContentModel;

    open spec fn view(&self) -> PageContentModel {
        PageContentModel {
            document_data: self.document_data@,
            created_at: self.created_at,
            modified_by: self.modified_by@,
        }
    }
}

/// One row of a history listing: when a revision was made, by whom, and its id.
#[derive(Debug, Clone)]
pub struct HistoryEntry {
    pub created_at: i64,
    pub revision_id: i64,
    pub modified_by: String,
}

/// The mathematical value of a [`HistoryEntry`].
pub struct HistoryEntryModel {
    pub created_at: i64,
    pub revision_id: i64,
    pub modified_by: Seq<char>,
}

impl View for HistoryEntry {
    type V = HistoryEntryModel;

    open spec fn view(&self) -> HistoryEntryModel {
        HistoryEntryModel {
            created_at: self.created_at,
            revision_id: self.revision_id,
            modified_by: self.modified_by@,
        }
    }
}

/// The history row a revision produces.
pub open spec fn entry_of(rv: Revision) -> HistoryEntryModel {
    HistoryEntryModel {
        created_at: rv.created_at,
        revision_id: rv.id,
        modified_by: rv.modified_by@,
    }
}

/// The index of the first document named `name`, or `-1` when there is none.
pub open spec fn doc_idx(docs: Seq<Document>, name: Seq<char>) -> int
    decreases docs.len(),
{
    if docs.len() == 0 {
        -1
    } else if docs[0].name@ == name {
        0
    } else {
        let r = doc_idx(docs.drop_first(), name);
        if r < 0 { -1 } else { r + 1 }
    }
}

/// The document named `name`, if any.
pub open spec fn find_doc(docs: Seq<Document>, name: Seq<char>) -> Option<Document> {
    let i = doc_idx(docs, name);
    if i < 0 { None } else { Some(docs[i]) }
}

pub proof fn lemma_doc_idx_props(docs: Seq<Document>, name: Seq<char>)
    ensures
        -1 <= doc_idx(docs, name) < docs.len(),
        doc_idx(docs, name) >= 0 ==> docs[doc_idx(docs, name)].name@ == name,
        doc_idx(docs, name) >= 0 ==> forall|j: int|
            0 <= j < doc_idx(docs, name) ==> (#[trigger] docs[j]).name@ != name,
        doc_idx(docs, name) == -1 ==> forall|j: int|
            0 <= j < docs.len() ==> (#[trigger] docs[j]).name@ != name,
    decreases docs.len(),
{
    if docs.len() > 0 && docs[0].name@ != name {
        lemma_doc_idx_props(docs.drop_first(), name);
        let r = doc_idx(docs.drop_first(), name);
        if r >= 0 {
            assert forall|j: int| 0 <= j < doc_idx(docs, name) implies (#[trigger] docs[j]).name@
                != name by {
                if j > 0 {
                    assert(docs[j] == docs.drop_first()[j - 1]);
                }
            }
        } else {
            assert forall|j: int| 0 <= j < docs.len() implies (#[trigger] docs[j]).name@ != name by {
                if j > 0 {
                    assert(docs[j] == docs.drop_first()[j - 1]);
                }
            }
        }
    }
}

pub proof fn lemma_doc_idx_first(docs: Seq<Document>, name: Seq<char>, i: int)
    requires
        0 <= i < docs.len(),
        docs[i].name@ == name,
        forall|j: int| 0 <= j < i ==> (#[trigger] docs[j]).name@ != name,
    ensures
        doc_idx(docs, name) == i,
    decreases docs.len(),
{
    if i > 0 {
        lemma_doc_idx_first(docs.drop_first(), name, i - 1);
    }
}

pub proof fn lemma_doc_idx_absent(docs: Seq<Document>, name: Seq<char>)
    requires
        forall|j: int| 0 <= j < docs.len() ==> (#[trigger] docs[j]).name@ != name,
    ensures
        doc_idx(docs, name) == -1,
    decreases docs.len(),
{
    if docs.len() > 0 {
        lemma_doc_idx_absent(docs.drop_first(), name);
    }
}

/// The index of the first revision with id `id`, or `-1`.
pub open spec fn rev_idx(revs: Seq<Revision>, id: i64) -> int
    decreases revs.len(),
{
    if revs.len() == 0 {
        -1
    } else if revs[0].id == id {
        0
    } else {
        let r = rev_idx(revs.drop_first(), id);
        if r < 0 { -1 } else { r + 1 }
    }
}

/// The revision with id `id`, if any.
pub open spec fn find_rev(revs: Seq<Revision>, id: i64) -> Option<Revision> {
    let i = rev_idx(revs, id);
    if i < 0 { None } else { Some(revs[i]) }
}

pub proof fn lemma_rev_idx_first(revs: Seq<Revision>, id: i64, i: int)
    requires
        0 <= i < revs.len(),
        revs[i].id == id,
        forall|j: int| 0 <= j < i ==> (#[trigger] revs[j]).id != id,
    ensures
        rev_idx(revs, id) == i,
    decreases revs.len(),
{
    if i > 0 {
        lemma_rev_idx_first(revs.drop_first(), id, i - 1);
    }
}

pub proof fn lemma_rev_idx_absent(revs: Seq<Revision>, id: i64)
    requires
        forall|j: int| 0 <= j < revs.len() ==> (#[trigger] revs[j]).id != id,
    ensures
        rev_idx(revs, id) == -1,
    decreases revs.len(),
{
    if revs.len() > 0 {
        lemma_rev_idx_absent(revs.drop_first(), id);
    }
}

/// The revisions of document `doc_id`, newest first (ids descending).
pub open spec fn revs_of_desc(revs: Seq<Revision>, doc_id: i64) -> Seq<Revision>
    decreases revs.len(),
{
    if revs.len() == 0 {
        Seq::<Revision>::empty()
    } else {
        let rest = revs_of_desc(revs.drop_last(), doc_id);
        if revs.last().document_id == doc_id {
            seq![revs.last()] + rest
        } else {
            rest
        }
    }
}

impl Store {
    /// Well-formedness: unique names and ids, revision ids in creation order,
    /// ids below the next to assign, every revision owned by a document, and
    /// every document's current pointer naming one of its own revisions.
    pub open spec fn wf(&self) -> bool {
        &&& 0 <= self.next_document_id
        &&& 0 <= self.next_revision_id
        &&& forall|i: int, j: int|
            0 <= i < j < self.documents@.len() ==> (#[trigger] self.documents@[i]).name@ != (
            #[trigger] self.documents@[j]).name@
        &&& forall|i: int, j: int|
            0 <= i < j < self.documents@.len() ==> (#[trigger] self.documents@[i]).id != (
            #[trigger] self.documents@[j]).id
        &&& forall|i: int|
            0 <= i < self.documents@.len() ==> 0 <= (#[trigger] self.documents@[i]).id
                < self.next_document_id
        &&& forall|i: int, j: int|
            0 <= i < j < self.revisions@.len() ==> (#[trigger] self.revisions@[i]).id < (
            #[trigger] self.revisions@[j]).id
        &&& forall|i: int|
            0 <= i < self.revisions@.len() ==> 0 <= (#[trigger] self.revisions@[i]).id
                < self.next_revision_id
        &&& forall|i: int|
            0 <= i < self.revisions@.len() ==> exists|j: int|
                0 <= j < self.documents@.len() && (#[trigger] self.documents@[j]).id == (
                #[trigger] self.revisions@[i]).document_id
        &&& forall|j: int|
            0 <= j < self.documents@.len() ==> self.current_ok(#[trigger] self.documents@[j])
    }

    /// The current pointer of `d` names a revision of `d` itself.
    pub open spec fn current_ok(&self, d: Document) -> bool {
        exists|k: int|
            0 <= k < self.revisions@.len() && (#[trigger] self.revisions@[k]).id
                == d.current_revision_id && self.revisions@[k].document_id == d.id
    }

    /// An empty store; ids start at 1 as a database sequence would.
    pub fn new() -> (r: Store)
        ensures
            r.wf(),
            r.documents@.len() == 0,
            r.revisions@.len() == 0,
            r.next_document_id == 1,
            r.next_revision_id == 1,
    {
        Store {
            documents: Vec::new(),
            revisions: Vec::new(),
            next_document_id: 1,
            next_revision_id: 1,
        }
    }

    /// What `fetch_current` returns: the content, creation time and author of
    /// the named document's current revision.
    pub open spec fn fetch_current_spec(&self, name: Seq<char>) -> Option<PageContentModel> {
        match find_doc(self.documents@, name) {
            None => None,
            Some(d) => match find_rev(self.revisions@, d.current_revision_id) {
                None => None,
                Some(rv) => Some(
                    PageContentModel {
                        document_data: rv.document_data@,
                        created_at: rv.created_at,
                        modified_by: rv.modified_by@,
                    },
                ),
            },
        }
    }

    /// What `fetch_revision` returns: the revision must exist and belong to
    /// the named document; an id of another document's revision is not found.
    pub open spec fn fetch_revision_spec(&self, name: Seq<char>, id: i64) -> Option<
        PageContentModel,
    > {
        match find_doc(self.documents@, name) {
            None => None,
            Some(d) => match find_rev(self.revisions@, id) {
                None => None,
                Some(rv) => if rv.document_id == d.id {
                    Some(
                        PageContentModel {
                            document_data: rv.document_data@,
                            created_at: rv.created_at,
                            modified_by: rv.modified_by@,
                        },
                    )
                } else {
                    None
                },
            },
        }
    }

    /// What `fetch_history` returns: the named document's revisions newest
    /// first, capped at 50 rows.  A name with no document yields no rows,
    /// indistinguishable from a document with no history.
    pub open spec fn history_spec(&self, name: Seq<char>) -> Seq<Revision> {
        match find_doc(self.documents@, name) {
            None => Seq::<Revision>::empty(),
            Some(d) => {
                let h = revs_of_desc(self.revisions@, d.id);
                if h.len() > 50 {
                    h.take(50)
                } else {
                    h
                }
            },
        }
    }

    /// Find the index of the document named `name`.
    fn doc_index(&self, name: &str) -> (r: Option<usize>)
        ensures
            match r {
                Some(i) => doc_idx(self.documents@, name@) == i && i < self.documents@.len(),
                None => doc_idx(self.documents@, name@) == -1,
            },
    {
        let mut i: usize = 0;
        let n = self.documents.len();
        while i < n
            invariant
                0 <= i <= n,
                n == self.documents@.len(),
                forall|j: int| 0 <= j < i ==> (#[trigger] self.documents@[j]).name@ != name@,
            decreases n - i,
        {
            if crate::strutil::str_eq(self.documents[i].name.as_str(), name) {
                proof {
                    lemma_doc_idx_first(self.documents@, name@, i as int);
                }
                return Some(i);
            }
            i = i + 1;
        }
        proof {
            lemma_doc_idx_absent(self.documents@, name@);
        }
        None
    }

    /// Find the index of the revision with id `id`.
    fn rev_index(&self, id: i64) -> (r: Option<usize>)
        ensures
            match r {
                Some(i) => rev_idx(self.revisions@, id) == i && i < self.revisions@.len(),
                None => rev_idx(self.revisions@, id) == -1,
            },
    {
        let mut i: usize = 0;
        let n = self.revisions.len();
        while i < n
            invariant
                0 <= i <= n,
                n == self.revisions@.len(),
                forall|j: int| 0 <= j < i ==> (#[trigger] self.revisions@[j]).id != id,
            decreases n - i,
        {
            if self.revisions[i].id == id {
                proof {
                    lemma_rev_idx_first(self.revisions@, id, i as int);
                }
                return Some(i);
            }
            i = i + 1;
        }
        proof {
            lemma_rev_idx_absent(self.revisions@, id);
        }
        None
    }

    /// Read the named document's current revision.
    pub fn fetch_current(&self, name: &str) -> (r: Option<PageContent>)
        ensures
            match r {
                Some(p) => self.fetch_current_spec(name@) == Some(p@),
                None => self.fetch_current_spec(name@) is None,
            },
    {
        let di = match self.doc_index(name) {
            Some(i) => i,
            None => {
                return None;
            },
        };
        let cur = self.documents[di].current_revision_id;
        let ri = match self.rev_index(cur) {
            Some(i) => i,
            None => {
                return None;
            },
        };
        let rv = &self.revisions[ri];
        Some(
            PageContent {
                document_data: rv.document_data.clone(),
                created_at: rv.created_at,
                modified_by: rv.modified_by.clone(),
            },
        )
    }

    /// Read one numbered revision of the named document.  The id must belong
    /// to that document; another document's revision id is not found.
    pub fn fetch_revision(&self, name: &str, id: i64) -> (r: Option<PageContent>)
        ensures
            match r {
                Some(p) => self.fetch_revision_spec(name@, id) == Some(p@),
                None => self.fetch_revision_spec(name@, id) is None,
            },
    {
        let di = match self.doc_index(name) {
            Some(i) => i,
            None => {
                return None;
            },
        };
        let ri = match self.rev_index(id) {
            Some(i) => i,
            None => {
                return None;
            },
        };
        let rv = &self.revisions[ri];
        if rv.document_id != self.documents[di].id {
            return None;
        }
        Some(
            PageContent {
                document_data: rv.document_data.clone(),
                created_at: rv.created_at,
                modified_by: rv.modified_by.clone(),
            },
        )
    }

    /// List the named document's revisions, newest first, at most 50.
    pub fn fetch_history(&self, name: &str) -> (r: Vec<HistoryEntry>)
        ensures
            r@.map_values(|e: HistoryEntry| e@) =~~= self.history_spec(name@).map_values(|rv: Revision| entry_of(rv)),
    {
        let di = match self.doc_index(name) {
            Some(i) => i,
            None => {
                assert(self.history_spec(name@) =~~= Seq::<Revision>::empty());
                return Vec::new();
            },
        };
        let doc_id = self.documents[di].id;
        let ghost full = revs_of_desc(self.revisions@, doc_id);
        let mut r: Vec<HistoryEntry> = Vec::new();
        let ghost collected = Seq::<Revision>::empty();
        let mut k = self.revisions.len();
        proof {
            assert(self.revisions@.take(k as int) =~= self.revisions@);
        }
        while k > 0 && r.len() < 50
            invariant
                0 <= k <= self.revisions@.len(),
                r@.len() == collected.len(),
                r@.len() <= 50,
                r@.map_values(|e: HistoryEntry| e@) =~~= collected.map_values(|rv: Revision| entry_of(rv)),
                full =~~= collected + revs_of_desc(self.revisions@.take(k as int), doc_id),
            decreases k,
        {
            let rv = &self.revisions[k - 1];
            let ghost pre = self.revisions@.take(k as int);
            proof {
                assert(pre.drop_last() =~= self.revisions@.take(k as int - 1));
                assert(pre.last() == self.revisions@[k - 1]);
            }
            if rv.document_id == doc_id {
                let e = HistoryEntry {
                    created_at: rv.created_at,
                    revision_id: rv.id,
                    modified_by: rv.modified_by.clone(),
                };
                proof {
                    let f = |x: HistoryEntry| x@;
                    assert(r@.push(e).map_values(f) =~~= r@.map_values(f) + seq![e@]);
                    assert((collected + seq![self.revisions@[k - 1]]).map_values(|rv: Revision| entry_of(rv))
                        =~~= collected.map_values(|rv: Revision| entry_of(rv)) + seq![entry_of(self.revisions@[k - 1])]);
                }
                r.push(e);
                proof {
                    collected = collected + seq![self.revisions@[k as int - 1]];
                }
            }
            k = k - 1;
        }
        proof {
            if r@.len() == 50 {
                assert(full.take(50) =~~= collected) by {
                    assert(full =~~= collected + revs_of_desc(
                        self.revisions@.take(k as int),
                        doc_id,
                    ));
                }
                assert(self.history_spec(name@) =~~= full.take(50));
            } else {
                assert(k == 0);
                assert(self.revisions@.take(0) =~= Seq::<Revision>::empty());
                assert(revs_of_desc(Seq::<Revision>::empty(), doc_id) =~~= Seq::<Revision>::empty());
                assert(full =~~= collected);
                assert(self.history_spec(name@) =~~= full);
            }
        }
        r
    }

    /// Append a new revision of the named document, creating the document on
    /// first write, and point the document at it.  The three steps happen as
    /// one: no intermediate state is observable.  Returns the new revision's
    /// id, and the named document's current content afterwards is exactly the
    /// text just written.
    #[verifier::rlimit(60)]
    pub fn append_revision(&mut self, name: &str, modified_by: &str, document_data: &str, now: i64) -> (id: i64)
        requires
            old(self).wf(),
            old(self).next_revision_id < i64::MAX,
            old(self).next_document_id < i64::MAX,
        ensures
            final(self).wf(),
            id == old(self).next_revision_id,
            final(self).next_revision_id == old(self).next_revision_id + 1,
            final(self).next_revision_id <= i64::MAX,
            final(self).revisions@.len() == old(self).revisions@.len() + 1,
            final(self).revisions@.drop_last() =~= old(self).revisions@,
            final(self).revisions@.last().id == id,
            final(self).revisions@.last().created_at == now,
            final(self).revisions@.last().modified_by@ == modified_by@,
            final(self).revisions@.last().document_data@ == document_data@,
            ({
                let i = doc_idx(old(self).documents@, name@);
                if i >= 0 {
                    &&& final(self).documents@.len() == old(self).documents@.len()
                    &&& forall|j: int|
                        0 <= j < old(self).documents@.len() && j != i ==> final(self).documents@[j]
                            == old(self).documents@[j]
                    &&& final(self).documents@[i].id == old(self).documents@[i].id
                    &&& final(self).documents@[i].name@ == name@
                    &&& final(self).documents@[i].last_modified == now
                    &&& final(self).documents@[i].current_revision_id == id
                    &&& final(self).next_document_id == old(self).next_document_id
                } else {
                    &&& final(self).documents@.drop_last() =~= old(self).documents@
                    &&& final(self).documents@.last().id == old(self).next_document_id
                    &&& final(self).documents@.last().name@ == name@
                    &&& final(self).documents@.last().last_modified == now
                    &&& final(self).documents@.last().current_revision_id == id
                    &&& final(self).next_document_id == old(self).next_document_id + 1
                }
            }),
            final(self).fetch_current_spec(name@) == Some(
                PageContentModel {
                    document_data: document_data@,
                    created_at: now,
                    modified_by: modified_by@,
                },
            ),
    {
        let id = self.next_revision_id;
        self.next_revision_id = id + 1;
        let idx = self.doc_index(name);
        proof {
            lemma_doc_idx_props(self.documents@, name@);
        }
        let doc_id: i64;
        let ghost di: int;
        match idx {
            Some(i) => {
                let d = self.documents.remove(i);
                doc_id = d.id;
                let d2 = Document {
                    id: d.id,
                    name: d.name,
                    last_modified: now,
                    current_revision_id: id,
                };
                self.documents.insert(i, d2);
                proof {
                    di = i as int;
                    assert(self.documents@ =~= old(self).documents@.update(i as int, d2));
                }
            },
            None => {
                doc_id = self.next_document_id;
                self.next_document_id = doc_id + 1;
                self.documents.push(
                    Document {
                        id: doc_id,
                        name: String::from_str(name),
                        last_modified: now,
                        current_revision_id: id,
                    },
                );
                proof {
                    di = self.documents@.len() - 1;
                }
            },
        }
        let nr = Revision {
            id,
            document_id: doc_id,
            created_at: now,
            modified_by: String::from_str(modified_by),
            document_data: String::from_str(document_data),
        };
        self.revisions.push(nr);
        proof {
            self.lemma_append_post(*old(self), di, name@);
        }
        id
    }

    /// After an append, the store is well formed again and the named
    /// document's current content is the new revision.
    #[verifier::rlimit(60)]
    proof fn lemma_append_post(&self, pre: Store, di: int, name: Seq<char>)
        requires
            pre.wf(),
            pre.next_revision_id < i64::MAX,
            pre.next_document_id < i64::MAX,
            0 <= di < self.documents@.len(),
            self.revisions@.len() == pre.revisions@.len() + 1,
            self.revisions@.drop_last() =~= pre.revisions@,
            self.revisions@.last().id == pre.next_revision_id,
            self.revisions@.last().document_id == self.documents@[di].id,
            self.next_revision_id == pre.next_revision_id + 1,
            self.documents@[di].name@ == name,
            self.documents@[di].current_revision_id == pre.next_revision_id,
            forall|j: int| 0 <= j < di ==> (#[trigger] self.documents@[j]).name@ != name,
            ({
                if doc_idx(pre.documents@, name) >= 0 {
                    &&& di == doc_idx(pre.documents@, name)
                    &&& self.documents@.len() == pre.documents@.len()
                    &&& forall|j: int|
                        0 <= j < pre.documents@.len() && j != di ==> self.documents@[j]
                            == pre.documents@[j]
                    &&& self.documents@[di].id == pre.documents@[di].id
                    &&& self.next_document_id == pre.next_document_id
                } else {
                    &&& di == pre.documents@.len()
                    &&& self.documents@.drop_last() =~= pre.documents@
                    &&& self.documents@[di].id == pre.next_document_id
                    &&& self.next_document_id == pre.next_document_id + 1
                }
            }),
        ensures
            self.wf(),
            self.fetch_current_spec(name) == Some(
                PageContentModel {
                    document_data: self.revisions@.last().document_data@,
                    created_at: self.revisions@.last().created_at,
                    modified_by: self.revisions@.last().modified_by@,
                },
            ),
    {
        let revs = self.revisions@;
        let docs = self.documents@;
        let nid = pre.next_revision_id;
        let preidx = doc_idx(pre.documents@, name);
        lemma_doc_idx_props(pre.documents@, name);
        assert(forall|j: int|
            0 <= j < revs.len() - 1 ==> revs[j] == (#[trigger] pre.revisions@[j]));
        if preidx >= 0 {
            assert(pre.documents@[di].name@ == name);
        } else {
            assert(forall|j: int| 0 <= j < docs.len() - 1 ==> (#[trigger] docs[j]) == pre.documents@[j]);
        }
        // revision ids stay sorted and bounded
        assert forall|i: int, j: int| 0 <= i < j < revs.len() implies (#[trigger] revs[i]).id < (
        #[trigger] revs[j]).id by {
            assert(revs[i] == pre.revisions@[i]);
            if j < revs.len() - 1 {
                assert(revs[j] == pre.revisions@[j]);
            } else {
                assert(0 <= pre.revisions@[i].id < nid);
            }
        }
        assert forall|i: int| 0 <= i < revs.len() implies 0 <= (#[trigger] revs[i]).id
            < self.next_revision_id by {
            if i < revs.len() - 1 {
                assert(revs[i] == pre.revisions@[i]);
            }
        }
        // names and document ids stay unique and bounded
        assert forall|i: int, j: int| 0 <= i < j < docs.len() implies (#[trigger] docs[i]).name@
            != (#[trigger] docs[j]).name@ by {
            if i != di {
                assert(docs[i] == pre.documents@[i]);
            }
            if j != di {
                assert(docs[j] == pre.documents@[j]);
            }
            if i == di {
                assert(docs[i].name@ == name);
                if preidx >= 0 {
                    assert(pre.documents@[di].name@ != pre.documents@[j].name@);
                }
            } else if j == di {
                assert(docs[j].name@ == name);
                if preidx >= 0 {
                    assert(pre.documents@[i].name@ != pre.documents@[di].name@);
                }
            }
        }
        assert forall|i: int, j: int| 0 <= i < j < docs.len() implies (#[trigger] docs[i]).id != (
        #[trigger] docs[j]).id by {
            if i != di {
                assert(docs[i] == pre.documents@[i]);
            }
            if j != di {
                assert(docs[j] == pre.documents@[j]);
            }
            if preidx >= 0 {
                assert(docs[di].id == pre.documents@[di].id);
            }
        }
        assert forall|i: int| 0 <= i < docs.len() implies 0 <= (#[trigger] docs[i]).id
            < self.next_document_id by {
            if i != di {
                assert(docs[i] == pre.documents@[i]);
            } else {
                if preidx >= 0 {
                    assert(docs[di].id == pre.documents@[di].id);
                }
            }
        }
        // every revision still belongs to a document
        assert(forall|i: int|
            0 <= i < revs.len() ==> exists|j: int|
                0 <= j < docs.len() && (#[trigger] docs[j]).id == (#[trigger] revs[i]).document_id) by {
            assert forall|i: int| 0 <= i < revs.len() implies exists|j: int|
                0 <= j < docs.len() && (#[trigger] docs[j]).id == (#[trigger] revs[i]).document_id by {
                if i < revs.len() - 1 {
                    let j0 = choose|j0: int|
                        0 <= j0 < pre.documents@.len() && (#[trigger] pre.documents@[j0]).id
                            == pre.revisions@[i].document_id;
                    if j0 == di {
                        assert(docs[di].id == pre.documents@[di].id);
                    } else {
                        assert(docs[j0].id == pre.documents@[j0].id);
                    }
                } else {
                    assert(docs[di].id == revs[i].document_id);
                }
            }
        }
        // every current pointer still resolves within its own document
        assert(forall|j: int| 0 <= j < docs.len() ==> self.current_ok(#[trigger] docs[j])) by {
            assert forall|j: int| 0 <= j < docs.len() implies self.current_ok(#[trigger] docs[j]) by {
                if j == di {
                    assert(revs[revs.len() - 1].id == docs[di].current_revision_id);
                    assert(revs[revs.len() - 1].document_id == docs[di].id);
                } else {
                    assert(docs[j] == pre.documents@[j]);
                    assert(pre.current_ok(pre.documents@[j]));
                    let k = choose|k: int|
                        0 <= k < pre.revisions@.len() && (#[trigger] pre.revisions@[k]).id
                            == pre.documents@[j].current_revision_id && pre.revisions@[k].document_id
                            == pre.documents@[j].id;
                    assert(revs[k] == pre.revisions@[k]);
                }
            }
        }
        // the named document now resolves to the new revision
        lemma_doc_idx_first(docs, name, di);
        assert(find_doc(docs, name) == Some(docs[di]));
        assert(forall|j: int| 0 <= j < revs.len() - 1 ==> (#[trigger] revs[j]).id != nid);
        lemma_rev_idx_first(revs, nid, revs.len() - 1);
        assert(find_rev(revs, nid) == Some(revs[revs.len() - 1]));
    }
}

/// Every row a history listing returns belongs to the requested document, and
/// the rows of the full (uncapped) listing carry strictly descending ids.
pub proof fn lemma_revs_of_desc_props(revs: Seq<Revision>, doc_id: i64)
    requires
        forall|i: int, j: int|
            0 <= i < j < revs.len() ==> (#[trigger] revs[i]).id < (#[trigger] revs[j]).id,
    ensures
        forall|k: int|
            0 <= k < revs_of_desc(revs, doc_id).len() ==> (#[trigger] revs_of_desc(revs, doc_id)[k]).document_id
                == doc_id,
        forall|i: int, j: int|
            0 <= i < j < revs_of_desc(revs, doc_id).len() ==> (#[trigger] revs_of_desc(
                revs,
                doc_id,
            )[i]).id > (#[trigger] revs_of_desc(revs, doc_id)[j]).id,
        forall|k: int|
            0 <= k < revs_of_desc(revs, doc_id).len() ==> exists|m: int|
                0 <= m < revs.len() && (#[trigger] revs_of_desc(revs, doc_id)[k]) == revs[m],
    decreases revs.len(),
{
    if revs.len() > 0 {
        let head = revs.drop_last();
        assert(forall|i: int, j: int|
            0 <= i < j < head.len() ==> (#[trigger] head[i]).id < (#[trigger] head[j]).id);
        lemma_revs_of_desc_props(head, doc_id);
        let rest = revs_of_desc(head, doc_id);
        let res = revs_of_desc(revs, doc_id);
        assert(forall|k: int| 0 <= k < rest.len() ==> exists|m: int|
            0 <= m < revs.len() && (#[trigger] rest[k]) == revs[m]) by {
            assert forall|k: int| 0 <= k < rest.len() implies exists|m: int|
                0 <= m < revs.len() && (#[trigger] rest[k]) == revs[m] by {
                let m = choose|m: int| 0 <= m < head.len() && (#[trigger] rest[k]) == head[m];
                assert(head[m] == revs[m]);
            }
        }
        if revs.last().document_id == doc_id {
            assert(res == seq![revs.last()] + rest);
            assert(forall|k: int| 0 <= k < rest.len() ==> (#[trigger] rest[k]).id < revs.last().id)
                by {
                assert forall|k: int| 0 <= k < rest.len() implies (#[trigger] rest[k]).id
                    < revs.last().id by {
                    let m = choose|m: int| 0 <= m < head.len() && (#[trigger] rest[k]) == head[m];
                    assert(revs[m].id < revs.last().id);
                }
            }
        }
    }
}

/// A history listing is capped at 50 rows, lists only the named document's
/// revisions, and orders them newest first: strictly descending ids.
pub proof fn lemma_history_capped_and_ordered(s: Store, name: Seq<char>)
    requires
        s.wf(),
    ensures
        s.history_spec(name).len() <= 50,
        forall|k: int|
            0 <= k < s.history_spec(name).len() ==> (#[trigger] s.history_spec(name)[k]).document_id
                == find_doc(s.documents@, name)->0.id,
        forall|i: int, j: int|
            0 <= i < j < s.history_spec(name).len() ==> (#[trigger] s.history_spec(name)[i]).id > (
            #[trigger] s.history_spec(name)[j]).id,
{
    match find_doc(s.documents@, name) {
        None => {
        },
        Some(d) => {
            lemma_revs_of_desc_props(s.revisions@, d.id);
        },
    }
}

/// A revision id that belongs to another document than the one named is not
/// found: the lookup filters on both the name and the owning document.
pub proof fn lemma_fetch_revision_other_document(s: Store, name: Seq<char>, id: i64)
    requires
        find_doc(s.documents@, name) matches Some(d) && (find_rev(s.revisions@, id) matches Some(
            rv,
        ) && rv.document_id != d.id),
    ensures
        s.fetch_revision_spec(name, id) is None,
{
}

} // verus!
