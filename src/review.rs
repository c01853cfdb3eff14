//! Reading and writing the user's review of a book.
use vstd::prelude::*;

use crate::codec::{encode_review, is_review_document, paragraphs, review_text_of, Json, decode_review};
use crate::error::SyncError;
use crate::model::{Book, BookReference, UserBook};
use crate::sync::{stored_rating, UserBookUpdate};
use crate::text::{trim, trimmed};

verus! {

/// The user's review of a book as shown to the user. `rating` counts
/// hundredths of a star.
#[derive(Debug)]
pub struct Review {
    pub user_book_id: i64,
    pub rating: Option<u32>,
    pub review_has_spoilers: bool,
    pub review_text: String,
    pub reviewed_at: Option<String>,
    pub sponsored_review: bool,
}

/// Whether `r` shows the review kept in `ub`, its text trimmed.
pub open spec fn shows(r: Review, ub: UserBook) -> bool {
    &&& r.user_book_id == ub.id
    &&& r.rating == ub.rating
    &&& r.review_has_spoilers == ub.review_has_spoilers
    &&& r.review_text@ == trimmed(review_text_of(ub.review_slate))
    &&& r.reviewed_at == ub.reviewed_at
    &&& r.sponsored_review == ub.sponsored_review
}

/// The review kept in the user's record of a book.
pub fn review_of(ub: UserBook) -> (r: Review)
    ensures
        shows(r, ub),
{
    let text = trim(decode_review(&ub.review_slate).as_str());
    Review {
        user_book_id: ub.id,
        rating: ub.rating,
        review_has_spoilers: ub.review_has_spoilers,
        review_text: text,
        reviewed_at: ub.reviewed_at,
        sponsored_review: ub.sponsored_review,
    }
}

/// The review of the book that the remote side matched to `reference`.
pub fn get_review(reference: BookReference, matches: Vec<Book>) -> (r: Result<Review, SyncError>)
    ensures
        matches@.len() == 0 ==> r == Err::<Review, SyncError>(SyncError::BookNotFound(reference)),
        matches@.len() > 0 && matches@[0].user_books@.len() == 0 ==> r == Err::<Review, SyncError>(
            SyncError::UserBookNotFound(reference),
        ),
        matches@.len() > 0 && matches@[0].user_books@.len() > 0 ==> (r matches Ok(rv) && shows(
            rv,
            matches@[0].user_books@[0],
        )),
{
    if matches.len() == 0 {
        return Err(SyncError::BookNotFound(reference));
    }
    let mut matches = matches;
    let mut book = matches.swap_remove(0);
    if book.user_books.len() == 0 {
        return Err(SyncError::UserBookNotFound(reference));
    }
    let ub = book.user_books.swap_remove(0);
    Ok(review_of(ub))
}

/// The request that writes the user's review of a book.
#[derive(Debug)]
pub struct UpdateReview {
    pub rating: Option<u32>,
    pub review_slate: Json,
    pub sponsored_review: bool,
    pub reviewed_at: String,
    pub review_has_spoilers: bool,
    pub user_book_id: i64,
}

impl UpdateReview {
    /// The request that writes `text` as the review of record `user_book_id`,
    /// dated `today`; a rating of zero is written as no rating.
    pub fn new(
        rating: u32,
        text: &str,
        review_has_spoilers: bool,
        sponsored_review: bool,
        user_book_id: i64,
        today: String,
    ) -> (r: UpdateReview)
        ensures
            r.rating == stored_rating(rating),
            is_review_document(r.review_slate, paragraphs(text@)),
            r.sponsored_review == sponsored_review,
            r.reviewed_at == today,
            r.review_has_spoilers == review_has_spoilers,
            r.user_book_id == user_book_id,
    {
        UpdateReview {
            rating: if rating == 0 {
                None
            } else {
                Some(rating)
            },
            review_slate: encode_review(text),
            sponsored_review,
            reviewed_at: today,
            review_has_spoilers,
            user_book_id,
        }
    }
}

/// The update that a request to set the user's record of a book asks for.
/// It must ask for a status or a review text.
pub fn requested_update(
    status: Option<i64>,
    rating: Option<u32>,
    text: Option<String>,
    sponsored: Option<bool>,
    spoilers: Option<bool>,
) -> (r: Result<UserBookUpdate, SyncError>)
    ensures
        status is None && text is None ==> (r matches Err(e) && e is InvalidInput),
        !(status is None && text is None) ==> r == Ok::<UserBookUpdate, SyncError>(
            UserBookUpdate {
                status_id: status,
                rating,
                review_text: text,
                review_has_spoilers: spoilers,
                sponsored_review: sponsored,
            },
        ),
{
    if status.is_none() && text.is_none() {
        return Err(
            SyncError::InvalidInput(String::from_str("At least one of --status or --text is required")),
        );
    }
    Ok(
        UserBookUpdate {
            status_id: status,
            rating,
            review_text: text,
            review_has_spoilers: spoilers,
            sponsored_review: sponsored,
        },
    )
}

/// The text of the review that a journal entry's metadata holds under
/// `review`, trimmed.
pub open spec fn metadata_review(metadata: Json) -> Option<Seq<char>> {
    match metadata {
        Json::Object(m) => match crate::codec::member(m@, seq!['r', 'e', 'v', 'i', 'e', 'w']) {
            Some(v) => Some(trimmed(crate::codec::node_text(v))),
            None => None,
        },
        _ => None,
    }
}

/// The text of the review that a journal entry's metadata holds, if any.
pub fn journal_review(metadata: &Json) -> (r: Option<String>)
    ensures
        match metadata_review(*metadata) {
            Some(t) => r matches Some(s) && s@ == t,
            None => r is None,
        },
{
    match metadata {
        Json::Object(m) => {
            let key = String::from_str("review");
            proof {
                reveal_strlit("review");
                assert(key@ =~= seq!['r', 'e', 'v', 'i', 'e', 'w']);
            }
            match crate::codec::find_member(m, &key) {
                Some(i) => Some(trim(crate::codec::node_text_of(&m[i].1).as_str())),
                None => None,
            }
        },
        _ => None,
    }
}

} // verus!
