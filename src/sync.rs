//! Deciding whether the user's record of a book is inserted, updated or left
//! alone, and what reading progress is then written.
use vstd::prelude::*;

use crate::codec::{
    decode_review, encode_review, is_review_document, joined_paragraphs, lemma_document_text,
    paragraphs, review_text_of, Json,
};
use crate::error::SyncError;
use crate::model::{UserBook, UserRead};

verus! {

/// The status of a book that is being read.
pub const CURRENTLY_READING: i64 = 2;

/// What the caller wants the user's record of a book to say. A field left
/// `None` is not to be changed. A rating counts hundredths of a star, and a
/// rating of zero means that the book has no rating.
#[derive(Debug)]
pub struct UserBookUpdate {
    pub status_id: Option<i64>,
    pub rating: Option<u32>,
    pub review_text: Option<String>,
    pub review_has_spoilers: Option<bool>,
    pub sponsored_review: Option<bool>,
}

/// The fields written to the user's record of a book; `None` leaves a field
/// as it is. `rating: Some(None)` removes the rating.
#[derive(Debug)]
pub struct UserBookUpdateInput {
    pub status_id: Option<i64>,
    pub rating: Option<Option<u32>>,
    pub review_slate: Option<Json>,
    pub reviewed_at: Option<String>,
    pub review_has_spoilers: Option<bool>,
    pub sponsored_review: Option<bool>,
}

/// The request that creates the user's record of a book.
#[derive(Debug)]
pub struct InsertUserBook {
    pub book_id: i64,
    pub edition_id: i64,
    pub status_id: i64,
    pub object: UserBookUpdateInput,
}

/// The request that changes the user's record of a book.
#[derive(Debug)]
pub struct UpdateUserBookStatus {
    pub id: i64,
    pub object: UserBookUpdateInput,
}

/// What synchronising the user's record of a book takes.
#[derive(Debug)]
pub enum UserBookAction {
    Insert(InsertUserBook),
    Update(UpdateUserBookStatus),
    Unchanged { user_book_id: i64 },
}

/// The rating stored for a requested rating: zero stands for none.
pub open spec fn stored_rating(r: u32) -> Option<u32> {
    if r == 0 {
        None
    } else {
        Some(r)
    }
}

/// The text that a review reads back as once written.
pub open spec fn review_reading(t: Seq<char>) -> Seq<char> {
    joined_paragraphs(paragraphs(t))
}

pub open spec fn status_held(ub: UserBook, upd: UserBookUpdate) -> bool {
    upd.status_id matches Some(s) ==> ub.status_id == s
}

pub open spec fn rating_held(ub: UserBook, upd: UserBookUpdate) -> bool {
    upd.rating matches Some(r) ==> ub.rating == stored_rating(r)
}

pub open spec fn review_held(ub: UserBook, upd: UserBookUpdate) -> bool {
    upd.review_text matches Some(t) ==> review_text_of(ub.review_slate) == review_reading(t@)
}

pub open spec fn spoilers_held(ub: UserBook, upd: UserBookUpdate) -> bool {
    upd.review_has_spoilers matches Some(b) ==> ub.review_has_spoilers == b
}

pub open spec fn sponsored_held(ub: UserBook, upd: UserBookUpdate) -> bool {
    upd.sponsored_review matches Some(b) ==> ub.sponsored_review == b
}

/// Whether the record already says everything that the update asks for.
pub open spec fn holds_update(ub: UserBook, upd: UserBookUpdate) -> bool {
    &&& status_held(ub, upd)
    &&& rating_held(ub, upd)
    &&& review_held(ub, upd)
    &&& spoilers_held(ub, upd)
    &&& sponsored_held(ub, upd)
}

/// Whether `input` writes exactly the fields of `upd` that `existing` does not
/// already hold (every field of `upd` where there is no record yet), with the
/// review dated `today` when it is written.
pub open spec fn writes_missing(
    input: UserBookUpdateInput,
    upd: UserBookUpdate,
    existing: Option<UserBook>,
    today: Seq<char>,
) -> bool {
    let absent = existing is None;
    let ub = existing->0;
    &&& input.status_id == (if upd.status_id is Some && (absent || !status_held(ub, upd)) {
        upd.status_id
    } else {
        None
    })
    &&& input.rating == (if upd.rating is Some && (absent || !rating_held(ub, upd)) {
        Some(stored_rating(upd.rating->0))
    } else {
        None
    })
    &&& if upd.review_text is Some && (absent || !review_held(ub, upd)) {
        &&& input.review_slate matches Some(d)
        &&& is_review_document(d, paragraphs(upd.review_text->0@))
        &&& input.reviewed_at matches Some(day)
        &&& day@ == today
    } else {
        input.review_slate is None && input.reviewed_at is None
    }
    &&& input.review_has_spoilers == (if upd.review_has_spoilers is Some && (absent || !spoilers_held(
        ub,
        upd,
    )) {
        upd.review_has_spoilers
    } else {
        None
    })
    &&& input.sponsored_review == (if upd.sponsored_review is Some && (absent || !sponsored_held(
        ub,
        upd,
    )) {
        upd.sponsored_review
    } else {
        None
    })
}

/// Whether `after` is the record `before` once `input` has been written to it.
pub open spec fn written(before: UserBook, input: UserBookUpdateInput, after: UserBook) -> bool {
    &&& after.status_id == (match input.status_id {
        Some(s) => s,
        None => before.status_id,
    })
    &&& after.rating == (match input.rating {
        Some(r) => r,
        None => before.rating,
    })
    &&& review_text_of(after.review_slate) == (match input.review_slate {
        Some(d) => review_text_of(d),
        None => review_text_of(before.review_slate),
    })
    &&& after.review_has_spoilers == (match input.review_has_spoilers {
        Some(b) => b,
        None => before.review_has_spoilers,
    })
    &&& after.sponsored_review == (match input.sponsored_review {
        Some(b) => b,
        None => before.sponsored_review,
    })
}

/// Whether `after` is the record that `insert` creates.
pub open spec fn created(insert: InsertUserBook, after: UserBook) -> bool {
    &&& after.status_id == insert.status_id
    &&& (insert.object.rating matches Some(r) ==> after.rating == r)
    &&& (insert.object.review_slate matches Some(d) ==> review_text_of(after.review_slate)
        == review_text_of(d))
    &&& (insert.object.review_has_spoilers matches Some(b) ==> after.review_has_spoilers == b)
    &&& (insert.object.sponsored_review matches Some(b) ==> after.sponsored_review == b)
}

fn review_input(upd: &UserBookUpdate, existing: &Option<UserBook>, today: &String) -> (r: (
    Option<Json>,
    Option<String>,
))
    ensures
        ({
            let absent = existing is None;
            if upd.review_text is Some && (absent || !review_held(existing->0, *upd)) {
                &&& r.0 matches Some(d)
                &&& is_review_document(d, paragraphs(upd.review_text->0@))
                &&& r.1 matches Some(day)
                &&& day@ == today@
            } else {
                r.0 is None && r.1 is None
            }
        }),
{
    match &upd.review_text {
        None => (None, None),
        Some(text) => {
            let doc = encode_review(text.as_str());
            proof {
                lemma_document_text(doc, paragraphs(text@));
            }
            let changed = match existing {
                None => true,
                Some(ub) => {
                    let now = decode_review(&ub.review_slate);
                    let wanted = decode_review(&doc);
                    !(now == wanted)
                },
            };
            if changed {
                (Some(doc), Some(today.clone()))
            } else {
                (None, None)
            }
        },
    }
}

fn plain_input(upd: &UserBookUpdate, existing: &Option<UserBook>, today: &String) -> (r:
    UserBookUpdateInput)
    ensures
        writes_missing(r, *upd, *existing, today@),
{
    let absent = existing.is_none();
    let status_id = match (upd.status_id, existing) {
        (Some(s), Some(ub)) => if ub.status_id == s {
            None
        } else {
            Some(s)
        },
        (s, _) => s,
    };
    let rating = match (upd.rating, existing) {
        (Some(r), Some(ub)) => {
            let stored = if r == 0 {
                None
            } else {
                Some(r)
            };
            if ub.rating == stored {
                None
            } else {
                Some(stored)
            }
        },
        (Some(r), None) => Some(
            if r == 0 {
                None
            } else {
                Some(r)
            },
        ),
        (None, _) => None,
    };
    let review_has_spoilers = match (upd.review_has_spoilers, existing) {
        (Some(b), Some(ub)) => if ub.review_has_spoilers == b {
            None
        } else {
            Some(b)
        },
        (b, _) => b,
    };
    let sponsored_review = match (upd.sponsored_review, existing) {
        (Some(b), Some(ub)) => if ub.sponsored_review == b {
            None
        } else {
            Some(b)
        },
        (b, _) => b,
    };
    let (review_slate, reviewed_at) = review_input(upd, existing, today);
    UserBookUpdateInput {
        status_id,
        rating,
        review_slate,
        reviewed_at,
        review_has_spoilers,
        sponsored_review,
    }
}

fn input_is_empty(input: &UserBookUpdateInput) -> (r: bool)
    ensures
        r == (input.status_id is None && input.rating is None && input.review_slate is None
            && input.reviewed_at is None && input.review_has_spoilers is None
            && input.sponsored_review is None),
{
    input.status_id.is_none() && input.rating.is_none() && input.review_slate.is_none()
        && input.reviewed_at.is_none() && input.review_has_spoilers.is_none()
        && input.sponsored_review.is_none()
}

/// The status that a new record gets: the one asked for, else reading.
pub open spec fn insert_status(upd: UserBookUpdate) -> i64 {
    match upd.status_id {
        Some(s) => s,
        None => CURRENTLY_READING,
    }
}

/// Whether `r` is what synchronising `existing` with `upd` takes.
pub open spec fn planned(
    r: UserBookAction,
    book_id: i64,
    edition_id: i64,
    existing: Option<UserBook>,
    upd: UserBookUpdate,
    today: Seq<char>,
) -> bool {
    match existing {
        None => r matches UserBookAction::Insert(ins) && ins.book_id == book_id && ins.edition_id
            == edition_id && ins.status_id == insert_status(upd) && writes_missing(
            ins.object,
            upd,
            existing,
            today,
        ),
        Some(ub) => if holds_update(ub, upd) {
            r == (UserBookAction::Unchanged { user_book_id: ub.id })
        } else {
            r matches UserBookAction::Update(u) && u.id == ub.id && writes_missing(
                u.object,
                upd,
                existing,
                today,
            )
        },
    }
}

/// Decides how to bring the user's record of a book in line with `upd`:
/// create it where there is none (reading, unless `upd` gives a status),
/// write the fields that differ where it exists, and write nothing where it
/// already says everything asked.
pub fn update_or_insert_user_book(
    book_id: i64,
    edition_id: i64,
    existing: &Option<UserBook>,
    upd: &UserBookUpdate,
    today: &String,
) -> (r: UserBookAction)
    ensures
        planned(r, book_id, edition_id, *existing, *upd, today@),
{
    let object = plain_input(upd, existing, today);
    match existing {
        None => {
            let status_id = match upd.status_id {
                Some(s) => s,
                None => CURRENTLY_READING,
            };
            UserBookAction::Insert(InsertUserBook { book_id, edition_id, status_id, object })
        },
        Some(ub) => {
            if input_is_empty(&object) {
                UserBookAction::Unchanged { user_book_id: ub.id }
            } else {
                UserBookAction::Update(UpdateUserBookStatus { id: ub.id, object })
            }
        },
    }
}

/// Once the fields that a first synchronisation found missing have been
/// written, the record holds the whole update: a second synchronisation with
/// the same values writes nothing.
pub proof fn lemma_update_then_unchanged(
    before: UserBook,
    upd: UserBookUpdate,
    input: UserBookUpdateInput,
    after: UserBook,
    today: Seq<char>,
)
    requires
        writes_missing(input, upd, Some(before), today),
        written(before, input, after),
    ensures
        holds_update(after, upd),
{
    if let Some(t) = upd.review_text {
        if let Some(d) = input.review_slate {
            lemma_document_text(d, paragraphs(t@));
        }
    }
}

/// The record that a first synchronisation created holds the whole update: a
/// second synchronisation with the same values writes nothing.
pub proof fn lemma_insert_then_unchanged(
    insert: InsertUserBook,
    upd: UserBookUpdate,
    after: UserBook,
    today: Seq<char>,
)
    requires
        insert.status_id == insert_status(upd),
        writes_missing(insert.object, upd, None, today),
        created(insert, after),
    ensures
        holds_update(after, upd),
{
    if let Some(t) = upd.review_text {
        if let Some(d) = insert.object.review_slate {
            lemma_document_text(d, paragraphs(t@));
        }
    }
}

/// The request that records reading progress.
#[derive(Debug)]
pub struct UpdateRead {
    pub id: i64,
    pub progress_pages: i64,
    pub edition_id: i64,
    pub started_at: String,
}

/// `percent` per cent of `pages`, rounded toward zero.
pub open spec fn progress_of(pages: int, percent: int) -> int {
    let x = pages * percent;
    if x >= 0 {
        x / 100
    } else {
        -((-x) / 100)
    }
}

pub open spec fn fits_i64(x: int) -> bool {
    i64::MIN <= x <= i64::MAX
}

/// `percent` per cent of `pages`, rounded toward zero, where that fits.
pub fn progress_pages(pages: i64, percent: i64) -> (r: Option<i64>)
    ensures
        fits_i64(progress_of(pages as int, percent as int)) ==> r == Some(
            progress_of(pages as int, percent as int) as i64,
        ),
        !fits_i64(progress_of(pages as int, percent as int)) ==> r is None,
{
    let p = pages as i128;
    let q = percent as i128;
    assert(-0x8000_0000_0000_0000 * 0x8000_0000_0000_0000 <= p * q <= 0x8000_0000_0000_0000
        * 0x8000_0000_0000_0000) by (nonlinear_arith)
        requires
            -0x8000_0000_0000_0000 <= p <= 0x7fff_ffff_ffff_ffff,
            -0x8000_0000_0000_0000 <= q <= 0x7fff_ffff_ffff_ffff,
    ;
    let x = p * q;
    let v: i128 = if x >= 0 {
        x / 100
    } else {
        -((-x) / 100)
    };
    if v < i64::MIN as i128 || v > i64::MAX as i128 {
        None
    } else {
        Some(v as i64)
    }
}

/// The date a reading started: the one recorded, else `today`.
pub open spec fn start_of(read: UserRead, today: String) -> String {
    match read.started_at {
        Some(d) => d,
        None => today,
    }
}

/// The progress request for the most recent reading in `reads`: `percent`
/// per cent of `pages` against edition `edition_id`, keeping the date the
/// reading started where one is recorded.
pub fn progress_update(
    reads: &Vec<UserRead>,
    book_id: i64,
    edition_id: i64,
    pages: i64,
    percent: i64,
    today: String,
) -> (r: Result<UpdateRead, SyncError>)
    ensures
        reads@.len() == 0 ==> r == Err::<UpdateRead, SyncError>(
            SyncError::ReadNotFound { book_id },
        ),
        reads@.len() > 0 && !fits_i64(progress_of(pages as int, percent as int)) ==> (r matches Err(
            e,
        ) && e is InvalidInput),
        reads@.len() > 0 && fits_i64(progress_of(pages as int, percent as int)) ==> (r matches Ok(
            u,
        ) && u.id == reads@[0].id && u.progress_pages == progress_of(pages as int, percent as int)
            && u.edition_id == edition_id && u.started_at == start_of(reads@[0], today)),
{
    if reads.len() == 0 {
        return Err(SyncError::ReadNotFound { book_id });
    }
    let progress = match progress_pages(pages, percent) {
        Some(p) => p,
        None => {
            return Err(
                SyncError::InvalidInput(String::from_str("The progress page does not fit a page number")),
            )
        },
    };
    let read = &reads[0];
    let started_at = match &read.started_at {
        Some(d) => d.clone(),
        None => today,
    };
    Ok(UpdateRead { id: read.id, progress_pages: progress, edition_id, started_at })
}

} // verus!
