//! The data-access layer's pure half: reading a stored document back as a
//! record, turning a submitted request into a document, and validating the
//! identifier a request path carries.

use vstd::prelude::*;

verus! {

use crate::Book;
use crate::doc::Doc;
use crate::doc::FieldName;
use crate::doc::Value;
use crate::doc::lookup;
use crate::error::Error;
use crate::handler::BookRequest;
use crate::oid::ObjectId;
use crate::oid::decoded;
use crate::oid::hex_of;
use crate::oid::is_valid_id;

// ---------------------------------------------------------------------------
// Reading a document.
// ---------------------------------------------------------------------------

/// The identifier field, when present with the right shape.
pub open spec fn oid_field(entries: Seq<(FieldName, Value)>) -> Option<ObjectId> {
    match lookup(entries, FieldName::Id) {
        Some(Value::ObjectId(o)) => Some(o),
        _ => None,
    }
}

/// A text field, when present with the right shape.
pub open spec fn text_field(entries: Seq<(FieldName, Value)>, f: FieldName) -> Option<String> {
    match lookup(entries, f) {
        Some(Value::Text(s)) => Some(s),
        _ => None,
    }
}

/// The page count field, when present with the right shape.
pub open spec fn pages_field(entries: Seq<(FieldName, Value)>) -> Option<i32> {
    match lookup(entries, FieldName::NumPages) {
        Some(Value::Int32(v)) => Some(v),
        _ => None,
    }
}

/// The creation timestamp field, when present with the right shape.
pub open spec fn added_at_field(entries: Seq<(FieldName, Value)>) -> Option<i64> {
    match lookup(entries, FieldName::AddedAt) {
        Some(Value::DateTime(v)) => Some(v),
        _ => None,
    }
}

/// The tags field, when present with the right shape.
pub open spec fn tags_field(entries: Seq<(FieldName, Value)>) -> Option<Seq<Value>> {
    match lookup(entries, FieldName::Tags) {
        Some(Value::Array(a)) => Some(a@),
        _ => None,
    }
}

/// The identifier field is present and holds twelve bytes.
pub open spec fn id_ok(entries: Seq<(FieldName, Value)>) -> bool {
    oid_field(entries) matches Some(o) && o.wf()
}

/// The page count field is present and non-negative: the record's page count
/// is a non-negative integer, so a stored negative value is malformed.
pub open spec fn pages_ok(entries: Seq<(FieldName, Value)>) -> bool {
    pages_field(entries) matches Some(v) && v >= 0
}

/// Every field a record needs is present with the right shape.
pub open spec fn doc_ok(entries: Seq<(FieldName, Value)>) -> bool {
    &&& id_ok(entries)
    &&& text_field(entries, FieldName::Name) is Some
    &&& text_field(entries, FieldName::Author) is Some
    &&& pages_ok(entries)
    &&& added_at_field(entries) is Some
    &&& tags_field(entries) is Some
}

/// The first field, in reading order, that is missing or has the wrong
/// shape (meaningful when `!doc_ok(entries)`).
pub open spec fn first_bad_field(entries: Seq<(FieldName, Value)>) -> FieldName {
    if !id_ok(entries) {
        FieldName::Id
    } else if text_field(entries, FieldName::Name) is None {
        FieldName::Name
    } else if text_field(entries, FieldName::Author) is None {
        FieldName::Author
    } else if !pages_ok(entries) {
        FieldName::NumPages
    } else if added_at_field(entries) is None {
        FieldName::AddedAt
    } else {
        FieldName::Tags
    }
}

/// The text entries of an array, in order; entries of any other shape are
/// passed over.
pub open spec fn string_values(vals: Seq<Value>) -> Seq<Seq<char>>
    decreases vals.len(),
{
    if vals.len() == 0 {
        Seq::empty()
    } else {
        match vals[0] {
            Value::Text(s) => seq![s@] + string_values(vals.skip(1)),
            _ => string_values(vals.skip(1)),
        }
    }
}

/// The record `b` is what the document `entries` reads back as.
pub open spec fn book_matches_doc(b: Book, entries: Seq<(FieldName, Value)>) -> bool {
    &&& doc_ok(entries)
    &&& b.id@ == hex_of((oid_field(entries)->0)@)
    &&& b.name@ == (text_field(entries, FieldName::Name)->0)@
    &&& b.author@ == (text_field(entries, FieldName::Author)->0)@
    &&& b.num_pages == pages_field(entries)->0 as usize
    &&& b.added_at == added_at_field(entries)->0
    &&& b.tags.deep_view() == string_values(tags_field(entries)->0)
}

/// Read a stored document back as a record. Fails on the first field, in
/// reading order, that is missing or has the wrong shape; a negative stored
/// page count is malformed, and only the text entries of the tags array are
/// kept.
pub fn doc_to_book(d: &Doc) -> (r: Result<Book, Error>)
    ensures
        r is Ok <==> doc_ok(d.entries@),
        r matches Ok(b) ==> book_matches_doc(b, d.entries@),
        r matches Err(e) ==> !doc_ok(d.entries@) && e == Error::MalformedField(
            first_bad_field(d.entries@),
        ),
{
    let id = match d.get(FieldName::Id) {
        Some(Value::ObjectId(o)) => {
            if o.bytes.len() == 12 {
                o.to_hex()
            } else {
                return Err(Error::MalformedField(FieldName::Id));
            }
        },
        _ => {
            return Err(Error::MalformedField(FieldName::Id));
        },
    };
    let name = match d.get(FieldName::Name) {
        Some(Value::Text(s)) => s.clone(),
        _ => {
            return Err(Error::MalformedField(FieldName::Name));
        },
    };
    let author = match d.get(FieldName::Author) {
        Some(Value::Text(s)) => s.clone(),
        _ => {
            return Err(Error::MalformedField(FieldName::Author));
        },
    };
    let num_pages = match d.get(FieldName::NumPages) {
        Some(Value::Int32(v)) => {
            if *v >= 0 {
                *v as usize
            } else {
                return Err(Error::MalformedField(FieldName::NumPages));
            }
        },
        _ => {
            return Err(Error::MalformedField(FieldName::NumPages));
        },
    };
    let added_at = match d.get(FieldName::AddedAt) {
        Some(Value::DateTime(v)) => *v,
        _ => {
            return Err(Error::MalformedField(FieldName::AddedAt));
        },
    };
    let tag_vals = match d.get(FieldName::Tags) {
        Some(Value::Array(a)) => a,
        _ => {
            return Err(Error::MalformedField(FieldName::Tags));
        },
    };
    let mut tags: Vec<String> = Vec::new();
    let n = tag_vals.len();
    let mut i: usize = 0;
    proof {
        assert(tag_vals@.skip(0) =~= tag_vals@);
    }
    while i < n
        invariant
            n == tag_vals@.len(),
            0 <= i <= n,
            string_values(tag_vals@) =~= tags.deep_view() + string_values(
                tag_vals@.skip(i as int),
            ),
        decreases n - i,
    {
        proof {
            assert(tag_vals@.skip(i as int)[0] == tag_vals@[i as int]);
            assert(tag_vals@.skip(i as int).skip(1) =~= tag_vals@.skip(i as int + 1));
        }
        let ghost prev = tags.deep_view();
        match &tag_vals[i] {
            Value::Text(s) => {
                tags.push(s.clone());
                proof {
                    assert(tags.deep_view() =~= prev.push(s@));
                    assert(prev.push(s@) + string_values(tag_vals@.skip(i as int + 1)) =~= prev + (
                    seq![s@] + string_values(tag_vals@.skip(i as int + 1))));
                }
            },
            _ => {},
        }
        i = i + 1;
    }
    proof {
        assert(string_values(tag_vals@.skip(n as int)) =~= Seq::<Seq<char>>::empty());
        assert(tags.deep_view() + Seq::<Seq<char>>::empty() =~= tags.deep_view());
    }
    Ok(Book { id, name, author, num_pages, added_at, tags })
}

// ---------------------------------------------------------------------------
// Writing a document.
// ---------------------------------------------------------------------------

/// The largest page count the stored 32-bit field can hold: a submission
/// above it cannot be stored without corrupting the record.
pub const MAX_NUM_PAGES: usize = 0x7fff_ffff;

/// `vals` holds exactly the given strings, each as a text value.
pub open spec fn is_text_seq_of(vals: Seq<Value>, strs: Seq<String>) -> bool {
    &&& vals.len() == strs.len()
    &&& forall|i: int| 0 <= i < vals.len() ==> #[trigger] vals[i] == Value::Text(strs[i])
}

/// `entries` is the document a submission becomes, stamped `added_at`: the
/// request's fields in storage order, the page count stored whole in the
/// 32-bit field (so it fits that field), and every tag as a text value.
pub open spec fn is_book_doc(
    entries: Seq<(FieldName, Value)>,
    entry: BookRequest,
    added_at: i64,
) -> bool {
    &&& entry.num_pages <= MAX_NUM_PAGES
    &&& entries.len() == 5
    &&& entries[0] == (FieldName::Name, Value::Text(entry.name))
    &&& entries[1] == (FieldName::Author, Value::Text(entry.author))
    &&& entries[2] == (FieldName::NumPages, Value::Int32(entry.num_pages as i32))
    &&& entries[3] == (FieldName::AddedAt, Value::DateTime(added_at))
    &&& entries[4].0 == FieldName::Tags
    &&& entries[4].1 matches Value::Array(a) && is_text_seq_of(a@, entry.tags@)
}

/// Turn a submission into the document to store, stamped `added_at`. The
/// page count must fit the stored 32-bit field; `new_book_doc` checks that.
pub fn book_doc(entry: &BookRequest, added_at: i64) -> (d: Doc)
    requires
        entry.num_pages <= MAX_NUM_PAGES,
    ensures
        is_book_doc(d.entries@, *entry, added_at),
{
    let mut tag_vals: Vec<Value> = Vec::new();
    let n = entry.tags.len();
    let mut i: usize = 0;
    while i < n
        invariant
            n == entry.tags@.len(),
            0 <= i <= n,
            tag_vals@.len() == i,
            forall|j: int| 0 <= j < i ==> #[trigger] tag_vals@[j] == Value::Text(entry.tags@[j]),
        decreases n - i,
    {
        tag_vals.push(Value::Text(entry.tags[i].clone()));
        i = i + 1;
    }
    let num = entry.num_pages as i32;
    let mut entries: Vec<(FieldName, Value)> = Vec::new();
    entries.push((FieldName::Name, Value::Text(entry.name.clone())));
    entries.push((FieldName::Author, Value::Text(entry.author.clone())));
    entries.push((FieldName::NumPages, Value::Int32(num)));
    entries.push((FieldName::AddedAt, Value::DateTime(added_at)));
    entries.push((FieldName::Tags, Value::Array(tag_vals)));
    Doc { entries }
}

/// Relies on chrono's `From<SystemTime>` conversion to `DateTime<Utc>`,
/// which reads the system clock and handles a clock before the Unix epoch
/// without aborting, and on `DateTime::timestamp_millis`, which renders it
/// as milliseconds since the epoch. Nothing is promised of the value; two
/// calls need not be related.
#[verifier::external_body]
fn now_millis() -> i64 {
    chrono::DateTime::<chrono::Utc>::from(std::time::SystemTime::now()).timestamp_millis()
}

/// Turn a submission into the document to store, stamped with the clock at
/// the moment of the call. Both creating and replacing a record store this
/// document; the timestamp used is returned beside it. A page count that
/// does not fit the stored 32-bit field is rejected, carrying the count.
pub fn new_book_doc(entry: &BookRequest) -> (r: Result<(Doc, i64), Error>)
    ensures
        r is Ok <==> entry.num_pages <= MAX_NUM_PAGES,
        r matches Ok(p) ==> is_book_doc(p.0.entries@, *entry, p.1),
        r matches Err(e) ==> e == Error::InvalidPageCount(entry.num_pages),
{
    if entry.num_pages > MAX_NUM_PAGES {
        return Err(Error::InvalidPageCount(entry.num_pages));
    }
    let t = now_millis();
    Ok((book_doc(entry, t), t))
}

/// The stored form of a document once the store assigns it an identifier:
/// the identifier field first, then the document's own fields.
pub fn with_id(d: Doc, oid: ObjectId) -> (r: Doc)
    ensures
        r.entries@.len() == d.entries@.len() + 1,
        r.entries@[0].0 == FieldName::Id,
        r.entries@[0].1 == Value::ObjectId(oid),
        r.entries@.skip(1) == d.entries@,
{
    let ghost orig = d.entries@;
    let mut entries = d.entries;
    entries.insert(0, (FieldName::Id, Value::ObjectId(oid)));
    proof {
        assert(entries@.skip(1) =~= orig);
    }
    Doc { entries }
}

/// Validate the identifier a request path carries, as the replace and delete
/// operations do: exactly 24 hexadecimal digits pass; anything else is
/// rejected, carrying the offending text.
pub fn validate_id(id: &str) -> (r: Result<ObjectId, Error>)
    ensures
        r is Ok <==> is_valid_id(id@),
        r matches Ok(oid) ==> oid.wf() && oid@ == decoded(id@),
        r matches Err(e) ==> (e matches Error::InvalidId(s) && s@ == id@),
{
    match ObjectId::parse(id) {
        Some(oid) => Ok(oid),
        None => Err(Error::InvalidId(id.to_owned())),
    }
}

/// The outcome of a replace or delete aimed at the record under `id`: an
/// operation that matched no record failed — the record is missing, which is
/// the client's error.
pub fn matched_to_result(matched: bool, id: &str) -> (r: Result<(), Error>)
    ensures
        r is Ok <==> matched,
        !matched ==> (r matches Err(e) && e matches Error::NotFound(s) && s@ == id@),
{
    if matched {
        Ok(())
    } else {
        Err(Error::NotFound(id.to_owned()))
    }
}

// ---------------------------------------------------------------------------
// Reading a whole listing.
// ---------------------------------------------------------------------------

/// Every document in the listing reads back as a record.
pub open spec fn docs_ok(docs: Seq<Doc>) -> bool {
    forall|i: int| 0 <= i < docs.len() ==> doc_ok(#[trigger] docs[i].entries@)
}

/// The index of the first document that does not read back (the length when
/// all do).
pub open spec fn first_bad_doc(docs: Seq<Doc>) -> int
    decreases docs.len(),
{
    if docs.len() == 0 {
        0
    } else if !doc_ok(docs[0].entries@) {
        0
    } else {
        1 + first_bad_doc(docs.skip(1))
    }
}

proof fn lemma_first_bad_doc_at(docs: Seq<Doc>, i: int)
    requires
        0 <= i < docs.len(),
        forall|j: int| 0 <= j < i ==> doc_ok(#[trigger] docs[j].entries@),
        !doc_ok(docs[i].entries@),
    ensures
        first_bad_doc(docs) == i,
    decreases i,
{
    if i > 0 {
        assert(doc_ok(docs[0].entries@));
        assert forall|j: int| 0 <= j < i - 1 implies doc_ok(
            #[trigger] docs.skip(1)[j].entries@,
        ) by {
            assert(docs.skip(1)[j] == docs[j + 1]);
        }
        assert(docs.skip(1)[i - 1] == docs[i]);
        lemma_first_bad_doc_at(docs.skip(1), i - 1);
    }
}

/// Read a whole listing back as records, in order. Fails with the fault of
/// the first document that does not read back.
pub fn books_from_docs(docs: &Vec<Doc>) -> (r: Result<Vec<Book>, Error>)
    ensures
        r is Ok <==> docs_ok(docs@),
        r matches Ok(books) ==> books@.len() == docs@.len() && (forall|i: int|
            0 <= i < docs@.len() ==> book_matches_doc(#[trigger] books@[i], docs@[i].entries@)),
        r matches Err(e) ==> e == Error::MalformedField(
            first_bad_field(docs@[first_bad_doc(docs@)].entries@),
        ),
{
    let mut books: Vec<Book> = Vec::new();
    let n = docs.len();
    let mut i: usize = 0;
    while i < n
        invariant
            n == docs@.len(),
            0 <= i <= n,
            books@.len() == i,
            forall|j: int| 0 <= j < i ==> doc_ok(#[trigger] docs@[j].entries@),
            forall|j: int|
                0 <= j < i ==> book_matches_doc(#[trigger] books@[j], docs@[j].entries@),
        decreases n - i,
    {
        match doc_to_book(&docs[i]) {
            Ok(b) => {
                books.push(b);
            },
            Err(e) => {
                proof {
                    lemma_first_bad_doc_at(docs@, i as int);
                }
                return Err(e);
            },
        }
        i = i + 1;
    }
    Ok(books)
}

// ---------------------------------------------------------------------------
// The marshalling round trip.
// ---------------------------------------------------------------------------

proof fn lemma_string_values_of_texts(vals: Seq<Value>, strs: Seq<String>)
    requires
        is_text_seq_of(vals, strs),
    ensures
        string_values(vals) =~= Seq::new(strs.len(), |i: int| strs[i]@),
    decreases vals.len(),
{
    if vals.len() > 0 {
        assert(vals[0] == Value::Text(strs[0]));
        assert forall|j: int| 0 <= j < vals.skip(1).len() implies #[trigger] vals.skip(1)[j]
            == Value::Text(strs.skip(1)[j]) by {
            assert(vals.skip(1)[j] == vals[j + 1]);
            assert(strs.skip(1)[j] == strs[j + 1]);
        }
        lemma_string_values_of_texts(vals.skip(1), strs.skip(1));
        assert(string_values(vals) =~= seq![strs[0]@] + string_values(vals.skip(1)));
        assert forall|j: int| 0 <= j < strs.len() implies #[trigger] string_values(vals)[j]
            == strs[j]@ by {
            if j > 0 {
                assert(string_values(vals.skip(1))[j - 1] == strs.skip(1)[j - 1]@);
                assert(strs.skip(1)[j - 1] == strs[j]);
            }
        }
    }
}

/// The persistence round trip of the record mapping: a document built from a
/// submission and then assigned an identifier by the store reads back whole.
/// Its fields are exactly the submission's, its timestamp is the stamp it was
/// built with, and its identifier is the one assigned — so a record listed
/// after a create or a replace shows what was submitted.
pub proof fn lemma_book_doc_round_trip(
    stored: Seq<(FieldName, Value)>,
    entries: Seq<(FieldName, Value)>,
    entry: BookRequest,
    added_at: i64,
    oid: ObjectId,
)
    requires
        is_book_doc(entries, entry, added_at),
        oid.wf(),
        stored.len() == entries.len() + 1,
        stored[0].0 == FieldName::Id,
        stored[0].1 == Value::ObjectId(oid),
        stored.skip(1) == entries,
    ensures
        doc_ok(stored),
        oid_field(stored) == Some(oid),
        text_field(stored, FieldName::Name) == Some(entry.name),
        text_field(stored, FieldName::Author) == Some(entry.author),
        pages_field(stored) == Some(entry.num_pages as i32),
        added_at_field(stored) == Some(added_at),
        tags_field(stored) matches Some(vals) && string_values(vals) =~= Seq::new(
            entry.tags@.len(),
            |i: int| entry.tags@[i]@,
        ),
{
    assert(stored[0] == (FieldName::Id, Value::ObjectId(oid)));
    assert(lookup(stored, FieldName::Id) == Some(Value::ObjectId(oid)));
    lemma_lookup_book_doc(stored, entries, entry, added_at);
    let vals = entries[4].1->Array_0;
    lemma_string_values_of_texts(vals@, entry.tags@);
}

proof fn lemma_lookup_book_doc(
    stored: Seq<(FieldName, Value)>,
    entries: Seq<(FieldName, Value)>,
    entry: BookRequest,
    added_at: i64,
)
    requires
        is_book_doc(entries, entry, added_at),
        stored.len() == entries.len() + 1,
        stored[0].0 == FieldName::Id,
        stored.skip(1) == entries,
    ensures
        lookup(stored, FieldName::Name) == Some(Value::Text(entry.name)),
        lookup(stored, FieldName::Author) == Some(Value::Text(entry.author)),
        lookup(stored, FieldName::NumPages) == Some(
            Value::Int32(entry.num_pages as i32),
        ),
        lookup(stored, FieldName::AddedAt) == Some(Value::DateTime(added_at)),
        lookup(stored, FieldName::Tags) == Some(entries[4].1),
{
    reveal_with_fuel(lookup, 7);
    let s1 = stored.skip(1);
    assert(s1[0] == entries[0] && s1[1] == entries[1] && s1[2] == entries[2] && s1[3] == entries[3]
        && s1[4] == entries[4]);
    let s2 = s1.skip(1);
    let s3 = s2.skip(1);
    let s4 = s3.skip(1);
    let s5 = s4.skip(1);
    assert(s2 =~= entries.skip(1));
    assert(s3 =~= entries.skip(2));
    assert(s4 =~= entries.skip(3));
    assert(s5 =~= entries.skip(4));
    assert(s2[0] == entries[1] && s2.len() == 4);
    assert(s3[0] == entries[2] && s3.len() == 3);
    assert(s4[0] == entries[3] && s4.len() == 2);
    assert(s5[0] == entries[4] && s5.len() == 1);
    assert(lookup(s5, FieldName::Tags) == Some(entries[4].1));
    assert(lookup(s4, FieldName::AddedAt) == Some(entries[3].1));
    assert(lookup(s4, FieldName::Tags) == lookup(s5, FieldName::Tags));
    assert(lookup(s3, FieldName::NumPages) == Some(entries[2].1));
    assert(lookup(s3, FieldName::AddedAt) == lookup(s4, FieldName::AddedAt));
    assert(lookup(s3, FieldName::Tags) == lookup(s4, FieldName::Tags));
    assert(lookup(s2, FieldName::Author) == Some(entries[1].1));
    assert(lookup(s1, FieldName::Name) == Some(entries[0].1));
    assert(lookup(stored, FieldName::Name) == lookup(s1, FieldName::Name));
    assert(lookup(stored, FieldName::Author) == lookup(s1, FieldName::Author));
    assert(lookup(stored, FieldName::NumPages) == lookup(s1, FieldName::NumPages));
    assert(lookup(stored, FieldName::AddedAt) == lookup(s1, FieldName::AddedAt));
    assert(lookup(stored, FieldName::Tags) == lookup(s1, FieldName::Tags));
}

} // verus!
