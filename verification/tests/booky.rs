use booky::db::{
    book_doc, books_from_docs, doc_to_book, matched_to_result, new_book_doc, validate_id, with_id,
    MAX_NUM_PAGES,
};
use booky::doc::{Doc, FieldName, Value};
use booky::error::{error_status, rejection_status, Error};
use booky::handler::{outcome_status, success_status, BookRequest};
use booky::oid::ObjectId;
use booky::router::{match_route, Method, Route};
use booky::store::Collection;

fn oid_from(bytes: [u8; 12]) -> ObjectId {
    ObjectId { bytes: bytes.to_vec() }
}

fn sample_request() -> BookRequest {
    BookRequest {
        name: "The Moon".to_string(),
        author: "A. Writer".to_string(),
        num_pages: 321,
        tags: vec!["space".to_string(), "night".to_string()],
    }
}

fn complete_doc() -> Doc {
    Doc {
        entries: vec![
            (
                FieldName::Id,
                Value::ObjectId(oid_from([0, 1, 2, 3, 4, 5, 6, 7, 8, 9, 10, 11])),
            ),
            (FieldName::Name, Value::Text("The Moon".to_string())),
            (FieldName::Author, Value::Text("A. Writer".to_string())),
            (FieldName::NumPages, Value::Int32(321)),
            (FieldName::AddedAt, Value::DateTime(1700000000000)),
            (
                FieldName::Tags,
                Value::Array(vec![
                    Value::Text("space".to_string()),
                    Value::Int32(9),
                    Value::Text("night".to_string()),
                ]),
            ),
        ],
    }
}

#[test]
fn hex_encoding_of_identifier() {
    let oid = oid_from([0, 1, 2, 3, 4, 5, 6, 7, 8, 9, 10, 11]);
    assert_eq!(oid.to_hex(), "000102030405060708090a0b");
    let oid = oid_from([0xde, 0xad, 0xbe, 0xef, 0x00, 0xff, 0x10, 0x32, 0x54, 0x76, 0x98, 0xba]);
    assert_eq!(oid.to_hex(), "deadbeef00ff1032547698ba");
}

#[test]
fn parse_round_trip() {
    let oid = oid_from([0xde, 0xad, 0xbe, 0xef, 0x00, 0xff, 0x10, 0x32, 0x54, 0x76, 0x98, 0xba]);
    let hex = oid.to_hex();
    let back = ObjectId::parse(&hex).expect("a rendered identifier parses");
    assert_eq!(back.bytes, oid.bytes);
}

#[test]
fn parse_accepts_upper_case() {
    let parsed = ObjectId::parse("DEADBEEF00FF1032547698BA").expect("upper case parses");
    assert_eq!(
        parsed.bytes,
        vec![0xde, 0xad, 0xbe, 0xef, 0x00, 0xff, 0x10, 0x32, 0x54, 0x76, 0x98, 0xba]
    );
}

#[test]
fn parse_rejects_bad_identifiers() {
    assert!(ObjectId::parse("").is_none());
    assert!(ObjectId::parse("000102030405060708090a0").is_none()); // 23 digits
    assert!(ObjectId::parse("000102030405060708090a0b0").is_none()); // 25 digits
    assert!(ObjectId::parse("zz0102030405060708090a0b").is_none());
    assert!(ObjectId::parse("000102030405060708090a0g").is_none());
}

#[test]
fn validate_id_reports_the_offending_text() {
    match validate_id("not-an-id") {
        Err(Error::InvalidId(s)) => assert_eq!(s, "not-an-id"),
        _ => panic!("an invalid identifier must be rejected"),
    }
    assert!(validate_id("000102030405060708090a0b").is_ok());
}

#[test]
fn complete_document_reads_back() {
    let book = doc_to_book(&complete_doc()).expect("a complete document reads back");
    assert_eq!(book.id, "000102030405060708090a0b");
    assert_eq!(book.name, "The Moon");
    assert_eq!(book.author, "A. Writer");
    assert_eq!(book.num_pages, 321);
    assert_eq!(book.added_at, 1700000000000);
    assert_eq!(book.tags, vec!["space".to_string(), "night".to_string()]);
}

#[test]
fn negative_page_count_is_malformed() {
    let mut d = complete_doc();
    d.entries[3] = (FieldName::NumPages, Value::Int32(-1));
    match doc_to_book(&d) {
        Err(Error::MalformedField(f)) => assert_eq!(f, FieldName::NumPages),
        _ => panic!("a negative stored page count must not read back"),
    }
}

#[test]
fn missing_fields_are_reported_in_reading_order() {
    for (idx, field) in [
        (0, FieldName::Id),
        (1, FieldName::Name),
        (2, FieldName::Author),
        (3, FieldName::NumPages),
        (4, FieldName::AddedAt),
        (5, FieldName::Tags),
    ] {
        let mut d = complete_doc();
        d.entries.remove(idx);
        match doc_to_book(&d) {
            Err(Error::MalformedField(f)) => assert_eq!(f, field),
            _ => panic!("a document without a field must not read back"),
        }
    }
}

#[test]
fn wrong_shape_is_malformed() {
    let mut d = complete_doc();
    d.entries[1] = (FieldName::Name, Value::Int32(7));
    match doc_to_book(&d) {
        Err(Error::MalformedField(f)) => assert_eq!(f, FieldName::Name),
        _ => panic!("a field of the wrong shape must not read back"),
    }
}

#[test]
fn first_fault_wins() {
    let mut d = complete_doc();
    d.entries.remove(5); // tags gone
    d.entries.remove(1); // name gone too; name is read first
    match doc_to_book(&d) {
        Err(Error::MalformedField(f)) => assert_eq!(f, FieldName::Name),
        _ => panic!("expected a malformed-field error"),
    }
}

#[test]
fn short_identifier_field_is_malformed() {
    let mut d = complete_doc();
    d.entries[0] = (FieldName::Id, Value::ObjectId(ObjectId { bytes: vec![1, 2, 3] }));
    match doc_to_book(&d) {
        Err(Error::MalformedField(f)) => assert_eq!(f, FieldName::Id),
        _ => panic!("an identifier of the wrong length must not read back"),
    }
}

#[test]
fn built_document_holds_the_submission() {
    let d = book_doc(&sample_request(), 42);
    assert_eq!(d.entries.len(), 5);
    assert!(matches!(d.get(FieldName::Name), Some(Value::Text(s)) if s == "The Moon"));
    assert!(matches!(d.get(FieldName::Author), Some(Value::Text(s)) if s == "A. Writer"));
    assert!(matches!(d.get(FieldName::NumPages), Some(Value::Int32(321))));
    assert!(matches!(d.get(FieldName::AddedAt), Some(Value::DateTime(42))));
    match d.get(FieldName::Tags) {
        Some(Value::Array(vals)) => {
            assert_eq!(vals.len(), 2);
            assert!(matches!(&vals[0], Value::Text(s) if s == "space"));
            assert!(matches!(&vals[1], Value::Text(s) if s == "night"));
        }
        _ => panic!("the tags field must be an array"),
    }
    assert!(d.get(FieldName::Id).is_none());
}

#[test]
fn oversized_page_count_is_rejected() {
    let mut req = sample_request();
    req.num_pages = MAX_NUM_PAGES + 1;
    match new_book_doc(&req) {
        Err(Error::InvalidPageCount(n)) => assert_eq!(n, MAX_NUM_PAGES + 1),
        _ => panic!("a page count beyond the stored field must be rejected"),
    }
    req.num_pages = MAX_NUM_PAGES;
    let (d, _t) = new_book_doc(&req).expect("the largest storable page count passes");
    assert!(matches!(
        d.get(FieldName::NumPages),
        Some(Value::Int32(n)) if *n == i32::MAX
    ));
}

#[test]
fn stamped_document_carries_its_stamp() {
    let (d, t) = new_book_doc(&sample_request()).unwrap();
    assert!(matches!(d.get(FieldName::AddedAt), Some(Value::DateTime(v)) if *v == t));
}

#[test]
fn assigned_identifier_comes_first() {
    let d = with_id(book_doc(&sample_request(), 7), oid_from([9; 12]));
    assert_eq!(d.entries.len(), 6);
    assert!(matches!(&d.entries[0], (FieldName::Id, Value::ObjectId(o)) if o.bytes == vec![9; 12]));
    assert!(matches!(&d.entries[1], (FieldName::Name, Value::Text(s)) if s == "The Moon"));
}

#[test]
fn listing_reads_every_document() {
    let docs = vec![
        with_id(book_doc(&sample_request(), 1), oid_from([1; 12])),
        with_id(book_doc(&sample_request(), 2), oid_from([2; 12])),
    ];
    let books = books_from_docs(&docs).expect("stored documents read back");
    assert_eq!(books.len(), 2);
    assert_eq!(books[0].added_at, 1);
    assert_eq!(books[1].added_at, 2);
}

#[test]
fn listing_fails_on_the_first_unreadable_document() {
    let docs = vec![
        with_id(book_doc(&sample_request(), 1), oid_from([1; 12])),
        Doc { entries: vec![(FieldName::Id, Value::ObjectId(oid_from([2; 12])))] },
    ];
    match books_from_docs(&docs) {
        Err(Error::MalformedField(f)) => assert_eq!(f, FieldName::Name),
        _ => panic!("an unreadable document must fail the listing"),
    }
}

#[test]
fn create_then_list_contains_it() {
    let mut coll = Collection::new();
    let oid = oid_from([3; 12]);
    coll.insert_one(with_id(book_doc(&sample_request(), 5), oid));
    let docs = coll.find_all();
    assert_eq!(docs.len(), 1);
    let books = books_from_docs(docs).unwrap();
    assert_eq!(books[0].id, oid_from([3; 12]).to_hex());
    assert_eq!(books[0].name, "The Moon");
    assert_eq!(books[0].author, "A. Writer");
    assert_eq!(books[0].num_pages, 321);
    assert_eq!(books[0].added_at, 5);
    assert_eq!(books[0].tags, vec!["space".to_string(), "night".to_string()]);
}

#[test]
fn update_changes_the_fields_and_keeps_the_identifier() {
    let mut coll = Collection::new();
    coll.insert_one(with_id(book_doc(&sample_request(), 5), oid_from([3; 12])));
    coll.insert_one(with_id(book_doc(&sample_request(), 6), oid_from([4; 12])));
    let replacement = BookRequest {
        name: "The Sun".to_string(),
        author: "B. Scribe".to_string(),
        num_pages: 12,
        tags: vec![],
    };
    let matched = coll.update_one(oid_from([3; 12]), book_doc(&replacement, 9));
    assert!(matched);
    let books = books_from_docs(coll.find_all()).unwrap();
    assert_eq!(books.len(), 2);
    assert_eq!(books[0].id, oid_from([3; 12]).to_hex());
    assert_eq!(books[0].name, "The Sun");
    assert_eq!(books[0].author, "B. Scribe");
    assert_eq!(books[0].num_pages, 12);
    assert_eq!(books[0].added_at, 9);
    assert_eq!(books[0].tags, Vec::<String>::new());
    // the other record is untouched
    assert_eq!(books[1].name, "The Moon");
    assert_eq!(books[1].added_at, 6);
}

#[test]
fn update_of_an_absent_identifier_changes_nothing() {
    let mut coll = Collection::new();
    coll.insert_one(with_id(book_doc(&sample_request(), 5), oid_from([3; 12])));
    let absent = oid_from([9; 12]);
    let id_text = absent.to_hex();
    let matched = coll.update_one(absent, book_doc(&sample_request(), 9));
    assert!(!matched);
    let books = books_from_docs(coll.find_all()).unwrap();
    assert_eq!(books.len(), 1);
    assert_eq!(books[0].added_at, 5);
    // an unmatched replace is the client's error: the record is missing
    match matched_to_result(matched, &id_text) {
        Err(Error::NotFound(s)) => assert_eq!(s, id_text),
        _ => panic!("an unmatched replace must report the record missing"),
    }
}

#[test]
fn missing_record_is_the_clients_fault() {
    assert!(matched_to_result(true, "000102030405060708090a0b").is_ok());
    match matched_to_result(false, "000102030405060708090a0b") {
        Err(e) => assert_eq!(error_status(&e), 404),
        _ => panic!("an unmatched operation must fail"),
    }
}

#[test]
fn delete_removes_the_record() {
    let mut coll = Collection::new();
    coll.insert_one(with_id(book_doc(&sample_request(), 5), oid_from([3; 12])));
    coll.insert_one(with_id(book_doc(&sample_request(), 6), oid_from([4; 12])));
    assert!(coll.delete_one(&oid_from([3; 12])));
    let books = books_from_docs(coll.find_all()).unwrap();
    assert_eq!(books.len(), 1);
    assert_eq!(books[0].id, oid_from([4; 12]).to_hex());
    // a second delete of the same identifier matches nothing, and an
    // unmatched delete reports the record missing
    let deleted = coll.delete_one(&oid_from([3; 12]));
    assert!(!deleted);
    assert!(matches!(
        matched_to_result(deleted, "030303030303030303030303"),
        Err(Error::NotFound(_))
    ));
}

#[test]
fn routes_of_the_four_operations() {
    let book = vec!["book".to_string()];
    let book_id = vec!["book".to_string(), "abc".to_string()];
    assert!(matches!(match_route(Method::Get, &book), Some(Route::ListBooks)));
    assert!(matches!(match_route(Method::Post, &book), Some(Route::CreateBook)));
    assert!(matches!(match_route(Method::Put, &book_id), Some(Route::EditBook(id)) if id == "abc"));
    assert!(
        matches!(match_route(Method::Delete, &book_id), Some(Route::DeleteBook(id)) if id == "abc")
    );
}

#[test]
fn everything_else_matches_no_route() {
    assert!(match_route(Method::Get, &vec![]).is_none());
    assert!(match_route(Method::Get, &vec!["books".to_string()]).is_none());
    assert!(match_route(Method::Get, &vec!["book".to_string(), "x".to_string()]).is_none());
    assert!(match_route(Method::Post, &vec!["book".to_string(), "x".to_string()]).is_none());
    assert!(match_route(Method::Put, &vec!["book".to_string()]).is_none());
    assert!(match_route(Method::Delete, &vec!["book".to_string()]).is_none());
    assert!(
        match_route(Method::Get, &vec!["book".to_string(), "x".to_string(), "y".to_string()])
            .is_none()
    );
}

#[test]
fn statuses_of_success() {
    assert_eq!(success_status(&Route::CreateBook), 201);
    assert_eq!(success_status(&Route::ListBooks), 200);
    assert_eq!(success_status(&Route::EditBook("a".to_string())), 200);
    assert_eq!(success_status(&Route::DeleteBook("a".to_string())), 200);
}

#[test]
fn statuses_of_errors() {
    assert_eq!(error_status(&Error::InvalidId("x".to_string())), 400);
    assert_eq!(error_status(&Error::NotFound("x".to_string())), 404);
    assert_eq!(error_status(&Error::InvalidPageCount(usize::MAX)), 400);
    assert_eq!(error_status(&Error::QueryFailed("down".to_string())), 500);
    assert_eq!(error_status(&Error::MalformedField(FieldName::Name)), 500);
    assert_eq!(rejection_status(None), 404);
    assert_eq!(rejection_status(Some(&Error::InvalidId("x".to_string()))), 400);
    assert_eq!(rejection_status(Some(&Error::NotFound("x".to_string()))), 404);
}

#[test]
fn status_of_an_outcome() {
    assert_eq!(outcome_status(&Route::CreateBook, &Ok(())), 201);
    assert_eq!(outcome_status(&Route::ListBooks, &Ok(())), 200);
    assert_eq!(
        outcome_status(&Route::DeleteBook("zz".to_string()), &Err(Error::InvalidId("zz".to_string()))),
        400
    );
    assert_eq!(
        outcome_status(&Route::ListBooks, &Err(Error::QueryFailed("down".to_string()))),
        500
    );
}
