use nickelhardcover::{
    Identity, InsertJournal, JournalEvent, Location, SetUserBook,
    encode_review, get_review, reference_for, require_book_source, Book, BookReference, Json, Search, SyncError,
    UpdateReview, UserBook,
};

fn book(user_books: Vec<UserBook>) -> Book {
    Book { id: 10, pages: None, editions: vec![], default_ebook_edition: None, default_cover_edition: None, user_books }
}

fn reviewed() -> UserBook {
    UserBook {
        id: 50,
        status_id: 3,
        rating: Some(450),
        review_slate: encode_review("  Good book \n\nRead it"),
        review_has_spoilers: true,
        sponsored_review: false,
        reviewed_at: Some("2024-01-01".to_string()),
        edition: None,
        user_book_reads: vec![],
    }
}

#[test]
fn review_is_read_back_trimmed() {
    let r = get_review(BookReference::BookId(10), vec![book(vec![reviewed()])]).unwrap();
    assert_eq!(r.user_book_id, 50);
    assert_eq!(r.rating, Some(450));
    assert!(r.review_has_spoilers);
    assert_eq!(r.review_text, "Good book \n\nRead it");
    assert_eq!(r.reviewed_at.as_deref(), Some("2024-01-01"));
}

#[test]
fn review_lookup_failures() {
    let err = get_review(BookReference::BookId(10), vec![]).unwrap_err();
    assert!(matches!(err, SyncError::BookNotFound(BookReference::BookId(10))));
    let err = get_review(BookReference::Identifiers(vec!["123".to_string()]), vec![book(vec![])]).unwrap_err();
    assert!(matches!(err, SyncError::UserBookNotFound(_)));
    assert_eq!(err.message(), "Failed to find a user book with ISBN/ASIN <i>123</i>");
}

#[test]
fn review_update_request() {
    let u = UpdateReview::new(0, "Hi", false, true, 50, "2024-05-06".to_string());
    assert_eq!(u.rating, None);
    assert!(matches!(u.review_slate, Json::Object(_)));
    assert_eq!(u.reviewed_at, "2024-05-06");
    assert!(u.sponsored_review);
    let u = UpdateReview::new(350, "Hi", true, false, 50, "2024-05-06".to_string());
    assert_eq!(u.rating, Some(350));
    assert_eq!(nickelhardcover::decode_review(&u.review_slate), "\n\nHi");
}

#[test]
fn commands_need_a_book() {
    assert!(matches!(require_book_source(&None, None), Err(SyncError::InvalidInput(_))));
    assert!(require_book_source(&Some("file:///a.epub".to_string()), None).is_ok());
    assert!(require_book_source(&None, Some(3)).is_ok());
    assert!(matches!(reference_for(vec![], Some(3)), BookReference::BookId(3)));
    assert!(matches!(reference_for(vec![], None), BookReference::BookId(0)));
    assert!(matches!(reference_for(vec!["x".to_string()], Some(3)), BookReference::Identifiers(_)));
}

#[test]
fn search_pages() {
    let s = Search { limit: 10, page: 1, query: "dune".to_string() };
    assert_eq!(s.page_count(Some(95)), Some(9));
    assert_eq!(s.page_count(None), Some(1));
    assert_eq!(Search { limit: 0, page: 1, query: String::new() }.page_count(Some(5)), None);
    let q = s.request();
    assert_eq!((q.query.as_str(), q.limit, q.page), ("dune", 10, 1));
}

#[test]
fn set_user_book_and_insert_journal_commands() {
    let cmd = SetUserBook { content_id: None, book_id: Some(1), status: None, rating: Some(0), text: None, sponsored: None, spoilers: None };
    assert!(matches!(cmd.update(), Err(SyncError::InvalidInput(_))));
    let cmd = SetUserBook { content_id: None, book_id: Some(1), status: None, rating: None, text: Some("t".to_string()), sponsored: Some(true), spoilers: None };
    let u = cmd.update().unwrap();
    assert_eq!(u.review_text.as_deref(), Some("t"));
    assert_eq!(u.sponsored_review, Some(true));
    let identity = Identity { book_id: 10, edition_id: 20, pages: 250, user_book: None };
    let j = InsertJournal { content_id: None, book_id: Some(10), text: "note".to_string(), position: Location { num: 40, den: 100 } };
    let e = j.entry(&identity).unwrap();
    assert_eq!((e.book_id, e.edition_id, e.page, e.possible), (10, 20, 100, 250));
    assert_eq!(e.event, JournalEvent::Note);
    assert!(e.action_at.is_none());
    let far = InsertJournal { content_id: None, book_id: Some(10), text: "n".to_string(), position: Location { num: u128::MAX, den: 1 } };
    assert!(matches!(far.entry(&identity), Err(SyncError::InvalidInput(_))));
}
