use nickelhardcover::{
    identity_query, resolve_identity, select_edition, select_pages, Book, BookReference, EditionRef,
    GetBook, GetUserId, IdentityQuery, Json, SyncError, UserBook, UserRead,
};

fn ed(id: i64, pages: Option<i64>) -> EditionRef {
    EditionRef { id, pages }
}

fn user_book(id: i64, edition: Option<EditionRef>) -> UserBook {
    UserBook {
        id,
        status_id: 1,
        rating: None,
        review_slate: Json::Object(vec![]),
        review_has_spoilers: false,
        sponsored_review: false,
        reviewed_at: None,
        edition,
        user_book_reads: vec![UserRead { id: 77, started_at: Some("2024-01-02".to_string()), edition }],
    }
}

fn fixture(e1: EditionRef, matched: Vec<EditionRef>) -> Book {
    Book {
        id: 10,
        pages: Some(999),
        editions: matched,
        default_ebook_edition: Some(ed(3, Some(300))),
        default_cover_edition: Some(ed(4, Some(400))),
        user_books: vec![user_book(50, Some(e1))],
    }
}

fn isbn() -> BookReference {
    BookReference::Identifiers(vec!["9780000000002".to_string()])
}

#[test]
fn linked_edition_is_chosen_whatever_matched_first() {
    let e1 = ed(1, Some(100));
    let e2 = ed(2, Some(200));
    let a = resolve_identity(isbn(), vec![fixture(e1, vec![e2, e1])]).unwrap();
    assert_eq!((a.book_id, a.edition_id, a.pages), (10, 1, 100));
    assert_eq!(a.user_book.as_ref().map(|u| u.id), Some(50));
    let b = resolve_identity(isbn(), vec![fixture(e1, vec![e1, e2])]).unwrap();
    assert_eq!(b.edition_id, 1);
    let c = resolve_identity(isbn(), vec![fixture(e1, vec![])]).unwrap();
    assert_eq!(c.edition_id, 1);
}

#[test]
fn page_count_of_first_match_when_linked_edition_has_none() {
    let e1 = ed(1, None);
    let e2 = ed(2, Some(200));
    let r = resolve_identity(isbn(), vec![fixture(e1, vec![e2])]).unwrap();
    assert_eq!(r.edition_id, 1);
    assert_eq!(r.pages, 200);
}

#[test]
fn fallback_chains_reach_defaults_and_book() {
    let mut b = fixture(ed(1, None), vec![]);
    b.user_books.clear();
    assert_eq!(select_edition(&b), Some(3));
    assert_eq!(select_pages(&b), Some(300));
    b.default_ebook_edition = Some(ed(3, None));
    assert_eq!(select_pages(&b), Some(400));
    b.default_cover_edition = Some(ed(4, None));
    assert_eq!(select_pages(&b), Some(999));
    b.default_ebook_edition = None;
    assert_eq!(select_edition(&b), Some(4));
    b.default_cover_edition = None;
    assert_eq!(select_edition(&b), None);
}

#[test]
fn no_match_is_book_not_found_with_remediation() {
    let err = resolve_identity(isbn(), vec![]).unwrap_err();
    assert!(matches!(err, SyncError::BookNotFound(_)));
    assert_eq!(
        err.message(),
        "Unable to find a book edition on Hardcover.app with ISBN/ASIN <i>9780000000002</i>. Please manually link book."
    );
    let err = resolve_identity(BookReference::BookId(4321), vec![]).unwrap_err();
    assert_eq!(
        err.message(),
        "Unable to find book id <i>4321</i> on Hardcover.app. Please manually un-link and re-link book."
    );
}

#[test]
fn missing_edition_and_missing_pages_are_distinct() {
    let mut b = fixture(ed(1, None), vec![]);
    b.user_books.clear();
    b.default_ebook_edition = None;
    b.default_cover_edition = None;
    let err = resolve_identity(isbn(), vec![b]).unwrap_err();
    assert!(matches!(err, SyncError::EditionNotFound { book_id: 10 }));
    assert_eq!(err.message(), "Failed to select edition for book <i>10</i>");

    let mut b = fixture(ed(1, None), vec![ed(2, None)]);
    b.default_ebook_edition = None;
    b.default_cover_edition = None;
    b.pages = None;
    let err = resolve_identity(isbn(), vec![b]).unwrap_err();
    assert!(matches!(err, SyncError::PageCountMissing { book_id: 10, .. }));
    assert_eq!(
        err.message(),
        "Unable to find the total page count for book <i>10</i>, found by ISBN/ASIN <i>9780000000002</i>. Please update the book on Hardcover.app with the correct page count."
    );
}

#[test]
fn user_id_is_first_listed() {
    assert_eq!(GetUserId::user_id(&vec![5, 6]).unwrap(), 5);
    let err = GetUserId::user_id(&vec![]).unwrap_err();
    assert!(matches!(err, SyncError::UserNotFound));
    assert_eq!(err.message(), "Failed to find Hardcover.app user");
}

#[test]
fn one_query_per_reference() {
    match identity_query(&isbn(), 9) {
        IdentityQuery::ByIdentifiers(q) => {
            assert_eq!(q.isbn, vec!["9780000000002".to_string()]);
            assert_eq!(q.user_id, 9);
        }
        _ => panic!("expected a query by identifiers"),
    }
    match identity_query(&BookReference::BookId(12), 9) {
        IdentityQuery::ByBook(q) => assert_eq!(q, GetBook { book_id: 12, user_id: 9 }),
        _ => panic!("expected a query by book"),
    }
}

#[test]
fn remote_errors_are_joined() {
    let e = SyncError::RemoteError(vec!["first".to_string(), "second".to_string()]);
    assert_eq!(e.message(), "first<br>second");
}
