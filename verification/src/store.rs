//! A model of the one collection the service keeps its documents in. Each
//! operation of the data-access layer is a single call here: find-all,
//! insert-one, update-one-by-id (a whole replacement), delete-one-by-id.
//! The persistence properties of the service — a created document is listed,
//! a replaced document carries the new fields, a deleted identifier is gone —
//! are stated and proved against this model.

use vstd::prelude::*;

verus! {

use crate::db::added_at_field;
use crate::db::doc_ok;
use crate::db::docs_ok;
use crate::db::id_ok;
use crate::db::is_book_doc;
use crate::db::lemma_book_doc_round_trip;
use crate::db::oid_field;
use crate::db::pages_field;
use crate::db::string_values;
use crate::db::tags_field;
use crate::db::text_field;
use crate::db::with_id;
use crate::doc::Doc;
use crate::doc::FieldName;
use crate::doc::Value;
use crate::handler::BookRequest;
use crate::oid::ObjectId;

/// Does the document carry `id` as its identifier?
pub open spec fn doc_has_id(d: Doc, id: Seq<u8>) -> bool {
    oid_field(d.entries@) matches Some(o) && o@ == id
}

/// Does some document of the listing carry `id`?
pub open spec fn contains_id(docs: Seq<Doc>, id: Seq<u8>) -> bool {
    exists|i: int| 0 <= i < docs.len() && doc_has_id(#[trigger] docs[i], id)
}

/// The index of the first document carrying `id` (meaningful when
/// `contains_id(docs, id)`).
pub open spec fn index_of_id(docs: Seq<Doc>, id: Seq<u8>) -> int
    decreases docs.len(),
{
    if docs.len() == 0 {
        0
    } else if doc_has_id(docs[0], id) {
        0
    } else {
        1 + index_of_id(docs.skip(1), id)
    }
}

proof fn lemma_index_of_id_at(docs: Seq<Doc>, id: Seq<u8>, i: int)
    requires
        0 <= i < docs.len(),
        forall|j: int| 0 <= j < i ==> !doc_has_id(#[trigger] docs[j], id),
        doc_has_id(docs[i], id),
    ensures
        index_of_id(docs, id) == i,
    decreases i,
{
    if i > 0 {
        assert(!doc_has_id(docs[0], id));
        assert forall|j: int| 0 <= j < i - 1 implies !doc_has_id(
            #[trigger] docs.skip(1)[j],
            id,
        ) by {
            assert(docs.skip(1)[j] == docs[j + 1]);
        }
        assert(docs.skip(1)[i - 1] == docs[i]);
        lemma_index_of_id_at(docs.skip(1), id, i - 1);
    }
}

/// Are two byte strings equal?
fn bytes_eq(a: &Vec<u8>, b: &Vec<u8>) -> (r: bool)
    ensures
        r == (a@ == b@),
{
    if a.len() != b.len() {
        return false;
    }
    let n = a.len();
    let mut i: usize = 0;
    while i < n
        invariant
            n == a@.len() == b@.len(),
            0 <= i <= n,
            forall|j: int| 0 <= j < i ==> a@[j] == b@[j],
        decreases n - i,
    {
        if a[i] != b[i] {
            return false;
        }
        i = i + 1;
    }
    proof {
        assert(a@ =~= b@);
    }
    true
}

/// Does the document carry `id`? (The executable form of `doc_has_id`.)
fn doc_id_matches(d: &Doc, id: &Vec<u8>) -> (r: bool)
    ensures
        r == doc_has_id(*d, id@),
{
    match d.get(FieldName::Id) {
        Some(Value::ObjectId(o)) => bytes_eq(&o.bytes, id),
        _ => false,
    }
}

/// The one collection of the service, as a listing of documents in
/// insertion order.
pub struct Collection {
    pub docs: Vec<Doc>,
}

impl Collection {
    /// Every stored document carries a well-formed identifier, and no two
    /// carry the same one.
    pub open spec fn wf(self) -> bool {
        &&& forall|i: int| 0 <= i < self.docs@.len() ==> id_ok(#[trigger] self.docs@[i].entries@)
        &&& forall|i: int, j: int|
            0 <= i < j < self.docs@.len() ==> (oid_field(#[trigger] self.docs@[i].entries@)->0)@
                != (oid_field(#[trigger] self.docs@[j].entries@)->0)@
    }

    /// An empty collection.
    pub fn new() -> (c: Collection)
        ensures
            c.wf(),
            c.docs@.len() == 0,
    {
        Collection { docs: Vec::new() }
    }

    /// All stored documents, in insertion order: the find-all operation.
    pub fn find_all(&self) -> (r: &Vec<Doc>)
        ensures
            r@ == self.docs@,
    {
        &self.docs
    }

    /// Store a new document under the identifier the store assigned it: the
    /// insert-one operation. The document joins the end of the listing, which
    /// thereafter contains its identifier; nothing else changes.
    pub fn insert_one(&mut self, d: Doc)
        requires
            old(self).wf(),
            id_ok(d.entries@),
            !contains_id(old(self).docs@, (oid_field(d.entries@)->0)@),
        ensures
            final(self).docs@ == old(self).docs@.push(d),
            contains_id(final(self).docs@, (oid_field(d.entries@)->0)@),
            final(self).wf(),
    {
        let ghost id = (oid_field(d.entries@)->0)@;
        let ghost n = self.docs@.len() as int;
        self.docs.push(d);
        proof {
            assert(doc_has_id(self.docs@[n], id));
            assert forall|i: int, j: int| 0 <= i < j < self.docs@.len() implies (oid_field(
                #[trigger] self.docs@[i].entries@,
            )->0)@ != (oid_field(#[trigger] self.docs@[j].entries@)->0)@ by {
                if j == n {
                    assert(!doc_has_id(old(self).docs@[i], id));
                }
            }
        }
    }

    /// Replace the document carrying `oid` with `d`, keeping the identifier:
    /// the update-one-by-id operation. Returns whether a document matched;
    /// when none does, the listing is unchanged. The replacement `d` carries
    /// no identifier of its own.
    pub fn update_one(&mut self, oid: ObjectId, d: Doc) -> (matched: bool)
        requires
            old(self).wf(),
            oid.wf(),
        ensures
            matched == contains_id(old(self).docs@, oid@),
            !matched ==> final(self).docs@ == old(self).docs@,
            matched ==> {
                let k = index_of_id(old(self).docs@, oid@);
                &&& final(self).docs@.len() == old(self).docs@.len()
                &&& forall|j: int|
                    0 <= j < old(self).docs@.len() && j != k ==> final(self).docs@[j] == old(
                        self,
                    ).docs@[j]
                &&& final(self).docs@[k].entries@.len() == d.entries@.len() + 1
                &&& final(self).docs@[k].entries@[0].0 == FieldName::Id
                &&& final(self).docs@[k].entries@[0].1 == Value::ObjectId(oid)
                &&& final(self).docs@[k].entries@.skip(1) == d.entries@
            },
            matched ==> contains_id(final(self).docs@, oid@),
            final(self).wf(),
    {
        let n = self.docs.len();
        let mut i: usize = 0;
        while i < n
            invariant
                self.docs@ == old(self).docs@,
                old(self).wf(),
                oid.wf(),
                n == self.docs@.len(),
                0 <= i <= n,
                forall|j: int| 0 <= j < i ==> !doc_has_id(#[trigger] self.docs@[j], oid@),
            decreases n - i,
        {
            if doc_id_matches(&self.docs[i], &oid.bytes) {
                proof {
                    lemma_index_of_id_at(self.docs@, oid@, i as int);
                    assert(contains_id(self.docs@, oid@));
                }
                let ghost k = i as int;
                let ghost before = self.docs@;
                let nd = with_id(d, oid);
                self.docs.remove(i);
                self.docs.insert(i, nd);
                proof {
                    assert forall|j: int|
                        0 <= j < before.len() && j != k implies self.docs@[j] == before[j] by {
                        assert(before.remove(k).insert(k, nd)[j] == before[j]);
                    }
                    assert(self.docs@[k] == nd);
                    assert(oid_field(nd.entries@) == Some(oid));
                    assert(doc_has_id(self.docs@[k], oid@));
                    assert((oid_field(before[k].entries@)->0)@ == oid@);
                    assert forall|j: int| 0 <= j < self.docs@.len() implies id_ok(
                        #[trigger] self.docs@[j].entries@,
                    ) by {
                        if j != k {
                            assert(self.docs@[j] == before[j]);
                            assert(id_ok(before[j].entries@));
                        }
                    }
                    assert forall|a: int, b: int|
                        0 <= a < b < self.docs@.len() implies (oid_field(
                        #[trigger] self.docs@[a].entries@,
                    )->0)@ != (oid_field(#[trigger] self.docs@[b].entries@)->0)@ by {
                        if a == k {
                            assert(self.docs@[b] == before[b]);
                            assert((oid_field(before[k].entries@)->0)@ != (oid_field(
                                before[b].entries@,
                            )->0)@);
                        } else if b == k {
                            assert(self.docs@[a] == before[a]);
                            assert((oid_field(before[a].entries@)->0)@ != (oid_field(
                                before[k].entries@,
                            )->0)@);
                        } else {
                            assert(self.docs@[a] == before[a]);
                            assert(self.docs@[b] == before[b]);
                        }
                    }
                }
                return true;
            }
            i = i + 1;
        }
        proof {
            assert(!contains_id(self.docs@, oid@));
        }
        false
    }

    /// Remove the document carrying `oid`: the delete-one-by-id operation.
    /// Returns whether a document matched; when none does, the listing is
    /// unchanged. Afterwards no document carries `oid`: a deleted record is
    /// gone from every later listing.
    pub fn delete_one(&mut self, oid: &ObjectId) -> (deleted: bool)
        requires
            old(self).wf(),
        ensures
            deleted == contains_id(old(self).docs@, oid@),
            !deleted ==> final(self).docs@ == old(self).docs@,
            deleted ==> final(self).docs@ == old(self).docs@.remove(
                index_of_id(old(self).docs@, oid@),
            ),
            final(self).wf(),
            !contains_id(final(self).docs@, oid@),
    {
        let n = self.docs.len();
        let mut i: usize = 0;
        while i < n
            invariant
                self.docs@ == old(self).docs@,
                old(self).wf(),
                n == self.docs@.len(),
                0 <= i <= n,
                forall|j: int| 0 <= j < i ==> !doc_has_id(#[trigger] self.docs@[j], oid@),
            decreases n - i,
        {
            if doc_id_matches(&self.docs[i], &oid.bytes) {
                proof {
                    lemma_index_of_id_at(self.docs@, oid@, i as int);
                    assert(contains_id(self.docs@, oid@));
                }
                let ghost k = i as int;
                let ghost before = self.docs@;
                self.docs.remove(i);
                proof {
                    assert((oid_field(before[k].entries@)->0)@ == oid@);
                    assert forall|j: int| 0 <= j < self.docs@.len() implies !doc_has_id(
                        #[trigger] self.docs@[j],
                        oid@,
                    ) && id_ok(self.docs@[j].entries@) by {
                        if j < k {
                            assert(self.docs@[j] == before[j]);
                            assert(id_ok(before[j].entries@));
                            if j < i as int {
                                assert(!doc_has_id(before[j], oid@));
                            }
                        } else {
                            assert(self.docs@[j] == before[j + 1]);
                            assert(id_ok(before[j + 1].entries@));
                            assert((oid_field(before[k].entries@)->0)@ != (oid_field(
                                before[j + 1].entries@,
                            )->0)@);
                        }
                    }
                    assert forall|a: int, b: int|
                        0 <= a < b < self.docs@.len() implies (oid_field(
                        #[trigger] self.docs@[a].entries@,
                    )->0)@ != (oid_field(#[trigger] self.docs@[b].entries@)->0)@ by {
                        let a0 = if a < k { a } else { a + 1 };
                        let b0 = if b < k { b } else { b + 1 };
                        assert(self.docs@[a] == before[a0]);
                        assert(self.docs@[b] == before[b0]);
                        assert((oid_field(before[a0].entries@)->0)@ != (oid_field(
                            before[b0].entries@,
                        )->0)@);
                    }
                }
                return true;
            }
            i = i + 1;
        }
        proof {
            assert(!contains_id(self.docs@, oid@));
        }
        false
    }
}

/// A created record is listed: a listing whose documents all read back, once
/// the stored form of a submission joins it, still reads back whole, now
/// contains the assigned identifier, and its new last document reads back as
/// exactly the submission — name, author, page count, stamp and tags.
pub proof fn lemma_create_then_list(
    docs: Seq<Doc>,
    d: Doc,
    entry: BookRequest,
    added_at: i64,
    oid: ObjectId,
)
    requires
        docs_ok(docs),
        oid.wf(),
        d.entries@.len() == 6,
        d.entries@[0].0 == FieldName::Id,
        d.entries@[0].1 == Value::ObjectId(oid),
        is_book_doc(d.entries@.skip(1), entry, added_at),
    ensures
        docs_ok(docs.push(d)),
        contains_id(docs.push(d), oid@),
        doc_ok(d.entries@),
        oid_field(d.entries@) == Some(oid),
        text_field(d.entries@, FieldName::Name) == Some(entry.name),
        text_field(d.entries@, FieldName::Author) == Some(entry.author),
        pages_field(d.entries@) == Some(entry.num_pages as i32),
        added_at_field(d.entries@) == Some(added_at),
        tags_field(d.entries@) matches Some(vals) && string_values(vals) =~= Seq::new(
            entry.tags@.len(),
            |i: int| entry.tags@[i]@,
        ),
{
    lemma_book_doc_round_trip(d.entries@, d.entries@.skip(1), entry, added_at, oid);
    let pushed = docs.push(d);
    assert(pushed[docs.len() as int] == d);
    assert forall|i: int| 0 <= i < pushed.len() implies doc_ok(#[trigger] pushed[i].entries@) by {
        if i < docs.len() {
            assert(pushed[i] == docs[i]);
        } else {
            assert(pushed[i] == d);
        }
    }
    assert(doc_has_id(pushed[docs.len() as int], oid@));
}

/// A replaced record carries the new fields: the document an update leaves
/// under `oid` — the kept identifier first, then the stored form of the new
/// submission — reads back as exactly that submission, under that identifier.
pub proof fn lemma_update_then_read(
    docs: Seq<Doc>,
    k: int,
    entry: BookRequest,
    added_at: i64,
    oid: ObjectId,
)
    requires
        0 <= k < docs.len(),
        oid.wf(),
        docs[k].entries@.len() == 6,
        docs[k].entries@[0].0 == FieldName::Id,
        docs[k].entries@[0].1 == Value::ObjectId(oid),
        is_book_doc(docs[k].entries@.skip(1), entry, added_at),
    ensures
        doc_ok(docs[k].entries@),
        oid_field(docs[k].entries@) == Some(oid),
        text_field(docs[k].entries@, FieldName::Name) == Some(entry.name),
        text_field(docs[k].entries@, FieldName::Author) == Some(entry.author),
        pages_field(docs[k].entries@) == Some(entry.num_pages as i32),
        added_at_field(docs[k].entries@) == Some(added_at),
        tags_field(docs[k].entries@) matches Some(vals) && string_values(vals) =~= Seq::new(
            entry.tags@.len(),
            |i: int| entry.tags@[i]@,
        ),
{
    lemma_book_doc_round_trip(
        docs[k].entries@,
        docs[k].entries@.skip(1),
        entry,
        added_at,
        oid,
    );
}

} // verus!
