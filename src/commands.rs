//! The decisions behind each command of the program, apart from the reading
//! and sending they are interleaved with.
use vstd::prelude::*;

use crate::config::SyncBookmarks;
use crate::error::SyncError;
use crate::journal::{history_needed, needs_history, Bookmark, InsertReadingJournal, JournalEvent};
use crate::position::{fits_page, page_for_location, page_of, Location};
use crate::resolve::Identity;
use crate::review::requested_update;
use crate::model::BookReference;
use crate::requests::{GetJournal, GetReadingJournal, SearchBooks};
use crate::sync::{UserBookUpdate, CURRENTLY_READING};

verus! {

/// Fails unless a command names its book by a local content id or a remote
/// book id.
pub fn require_book_source(content_id: &Option<String>, book_id: Option<i64>) -> (r: Result<
    (),
    SyncError,
>)
    ensures
        r is Ok <==> (content_id is Some || book_id is Some),
        r matches Err(e) ==> e is InvalidInput,
{
    if content_id.is_none() && book_id.is_none() {
        Err(SyncError::InvalidInput(String::from_str("One of --content-id or --book-id is required")))
    } else {
        Ok(())
    }
}

/// The reference for a book named by the identifiers read from its local
/// content, if any were read, or else by a remote book id (0 for none).
pub fn reference_for(identifiers: Vec<String>, book_id: Option<i64>) -> (r: BookReference)
    ensures
        identifiers@.len() > 0 ==> r == BookReference::Identifiers(identifiers),
        identifiers@.len() == 0 ==> r == BookReference::BookId(
            match book_id {
                Some(id) => id,
                None => 0,
            },
        ),
{
    let id = match book_id {
        Some(id) => id,
        None => 0,
    };
    BookReference::from_parts(identifiers, id)
}

/// Records reading progress and writes bookmarks to the reading journal.
#[derive(Debug)]
pub struct Update {
    /// The local content id or `file://` path of the book.
    pub content_id: String,
    /// The remote id of the book, where it is linked by hand.
    pub book_id: Option<i64>,
    /// The percentage read.
    pub value: i64,
    /// Only bookmarks changed after this moment are written.
    pub after: Option<String>,
}

/// Whether the bookmarks of a book read to `value` per cent are written, and
/// from which moment on: `None` where they are not written at all.
pub open spec fn cutoff_of(mode: SyncBookmarks, value: i64, after: Option<String>) -> Option<
    Option<String>,
> {
    match mode {
        SyncBookmarks::Never => None,
        SyncBookmarks::Finished => if value == 100 {
            Some(None)
        } else {
            None
        },
        SyncBookmarks::Always => Some(after),
    }
}

impl Update {
    /// Whether the book's identifiers must be read from its local content:
    /// only where no remote id is given.
    pub fn needs_identifiers(&self) -> (r: bool)
        ensures
            r == self.book_id is None,
    {
        self.book_id.is_none()
    }

    /// The update to the user's record that recording progress makes: the
    /// book is being read.
    pub fn user_book_update(&self) -> (r: UserBookUpdate)
        ensures
            r == (UserBookUpdate {
                status_id: Some(CURRENTLY_READING),
                rating: None,
                review_text: None,
                review_has_spoilers: None,
                sponsored_review: None,
            }),
    {
        UserBookUpdate {
            status_id: Some(CURRENTLY_READING),
            rating: None,
            review_text: None,
            review_has_spoilers: None,
            sponsored_review: None,
        }
    }

    /// Whether bookmarks are written, and changed after which moment.
    pub fn bookmark_cutoff(&self, mode: SyncBookmarks) -> (r: Option<Option<String>>)
        ensures
            r == cutoff_of(mode, self.value, self.after),
    {
        match mode {
            SyncBookmarks::Never => None,
            SyncBookmarks::Finished => if self.value == 100 {
                Some(None)
            } else {
                None
            },
            SyncBookmarks::Always => Some(self.after.clone()),
        }
    }

    /// The query for the journal history that a bookmark is matched against,
    /// where it needs one.
    pub fn history_query(&self, user_id: i64, b: &Bookmark) -> (r: Option<GetJournal>)
        ensures
            history_needed(b.date_created@, self.after) ==> (r matches Some(q) && q.user_id == user_id
                && q.action_at@ == b.date_created@),
            !history_needed(b.date_created@, self.after) ==> r is None,
    {
        if needs_history(&b.date_created, &self.after) {
            Some(GetJournal { user_id, action_at: b.date_created.clone() })
        } else {
            None
        }
    }
}

/// The moment a bookmark's journal entries are dated: none where bookmarks are
/// written once the book is finished, else the moment it was made.
pub fn action_at(mode: SyncBookmarks, date_created: &String) -> (r: Option<String>)
    ensures
        mode == SyncBookmarks::Finished ==> r is None,
        mode != SyncBookmarks::Finished ==> r == Some(*date_created),
{
    match mode {
        SyncBookmarks::Finished => None,
        _ => Some(date_created.clone()),
    }
}

/// Retrieves the user's record of a book, review included.
#[derive(Debug)]
pub struct GetUserBook {
    pub content_id: Option<String>,
    pub book_id: Option<i64>,
}

/// Lists entries of the user's reading journal of a book.
#[derive(Debug)]
pub struct ListJournal {
    pub content_id: Option<String>,
    pub book_id: Option<i64>,
    pub limit: i64,
    pub offset: i64,
}

impl ListJournal {
    pub fn query(&self, reference: &BookReference, user_id: i64) -> (r: GetReadingJournal)
        ensures
            r.user_id == user_id,
            r.limit == self.limit,
            r.offset == self.offset,
            crate::requests::reference_variables(*reference, r.isbn@, r.book_id),
    {
        GetReadingJournal::new(reference, user_id, self.limit, self.offset)
    }
}

/// Searches the remote catalogue.
#[derive(Debug)]
pub struct Search {
    pub limit: i64,
    pub page: i64,
    pub query: String,
}

/// `a / b` rounded toward zero.
pub open spec fn quotient(a: int, b: int) -> int {
    if a >= 0 {
        a / b
    } else {
        -((-a) / b)
    }
}

impl Search {
    pub fn request(&self) -> (r: SearchBooks)
        ensures
            r.query == self.query,
            r.limit == self.limit,
            r.page == self.page,
    {
        SearchBooks { query: self.query.clone(), limit: self.limit, page: self.page }
    }

    /// The number of pages of results: the number found (the page size where
    /// none is given) over the page size, rounded toward zero. None for a page
    /// size that is not positive.
    pub fn page_count(&self, found: Option<i64>) -> (r: Option<i64>)
        ensures
            self.limit <= 0 ==> r is None,
            self.limit > 0 ==> r == Some(
                quotient(
                    match found {
                        Some(f) => f as int,
                        None => self.limit as int,
                    },
                    self.limit as int,
                ) as i64,
            ),
    {
        if self.limit <= 0 {
            return None;
        }
        let f = match found {
            Some(f) => f,
            None => self.limit,
        };
        let a = f as i128;
        let q: i128 = if a >= 0 {
            a / self.limit as i128
        } else {
            -((-a) / self.limit as i128)
        };
        Some(q as i64)
    }
}

/// Sets fields of the user's record of a book. `rating` counts hundredths of
/// a star.
#[derive(Debug)]
pub struct SetUserBook {
    pub content_id: Option<String>,
    pub book_id: Option<i64>,
    pub status: Option<i64>,
    pub rating: Option<u32>,
    pub text: Option<String>,
    pub sponsored: Option<bool>,
    pub spoilers: Option<bool>,
}

impl SetUserBook {
    /// The update the command asks for; it must give a status or a text.
    pub fn update(self) -> (r: Result<UserBookUpdate, SyncError>)
        ensures
            self.status is None && self.text is None ==> (r matches Err(e) && e is InvalidInput),
            !(self.status is None && self.text is None) ==> r == Ok::<UserBookUpdate, SyncError>(
                UserBookUpdate {
                    status_id: self.status,
                    rating: self.rating,
                    review_text: self.text,
                    review_has_spoilers: self.spoilers,
                    sponsored_review: self.sponsored,
                },
            ),
    {
        requested_update(self.status, self.rating, self.text, self.sponsored, self.spoilers)
    }
}

/// Adds a note to the user's reading journal of a book at a position in it.
#[derive(Debug)]
pub struct InsertJournal {
    pub content_id: Option<String>,
    pub book_id: Option<i64>,
    pub text: String,
    /// How far into the book the note is made.
    pub position: Location,
}

impl InsertJournal {
    /// The journal entry for the note, undated, on the page of the resolved
    /// edition that the position falls on; an error where that page is not an
    /// `i64`.
    pub fn entry(self, identity: &Identity) -> (r: Result<InsertReadingJournal, SyncError>)
        requires
            self.position.well_formed(),
            self.position.den <= u64::MAX,
        ensures
            !fits_page(page_of(self.position, identity.pages as int)) ==> (r matches Err(e)
                && e is InvalidInput),
            fits_page(page_of(self.position, identity.pages as int)) ==> (r matches Ok(j) && j.book_id
                == identity.book_id && j.edition_id == identity.edition_id && j.event
                == JournalEvent::Note && j.entry == self.text && j.action_at is None && j.page
                == page_of(self.position, identity.pages as int) && j.possible == identity.pages
                && j.location == self.position),
    {
        let page = match page_for_location(self.position, identity.pages) {
            Some(p) => p,
            None => {
                return Err(
                    SyncError::InvalidInput(String::from_str("The page of the note does not fit a page number")),
                );
            },
        };
        Ok(
            InsertReadingJournal {
                book_id: identity.book_id,
                edition_id: identity.edition_id,
                event: JournalEvent::Note,
                entry: self.text,
                action_at: None,
                page,
                possible: identity.pages,
                location: self.position,
            },
        )
    }
}

} // verus!
