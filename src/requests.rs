//! The remote queries that the library asks its transport to run, each with
//! its variables.
use vstd::prelude::*;

use crate::error::SyncError;
use crate::model::{copy_strings, BookReference};

verus! {

/// The query for the id of the authenticated user.
#[derive(Clone, Copy, Debug, PartialEq, Eq)]
pub struct GetUserId;

impl GetUserId {
    /// The user id from the query's answer: the first user listed.
    pub fn user_id(me: &Vec<i64>) -> (r: Result<i64, SyncError>)
        ensures
            me@.len() == 0 ==> r == Err::<i64, SyncError>(SyncError::UserNotFound),
            me@.len() > 0 ==> r == Ok::<i64, SyncError>(me@[0]),
    {
        if me.len() == 0 {
            Err(SyncError::UserNotFound)
        } else {
            Ok(me[0])
        }
    }
}

/// The query for the editions that match a set of identifiers, each with its
/// book, the book's candidate editions and the user's record of it.
#[derive(Debug)]
pub struct GetEdition {
    pub isbn: Vec<String>,
    pub user_id: i64,
}

/// The query for a book by its remote id, with its candidate editions and the
/// user's record of it.
#[derive(Clone, Copy, Debug, PartialEq, Eq)]
pub struct GetBook {
    pub book_id: i64,
    pub user_id: i64,
}

/// The single query that resolves a reference.
#[derive(Debug)]
pub enum IdentityQuery {
    ByIdentifiers(GetEdition),
    ByBook(GetBook),
}

/// The query that resolves `reference` for user `user_id` in one round trip.
pub fn identity_query(reference: &BookReference, user_id: i64) -> (r: IdentityQuery)
    ensures
        match *reference {
            BookReference::Identifiers(ids) => r matches IdentityQuery::ByIdentifiers(q) && q.isbn@
                == ids@ && q.user_id == user_id,
            BookReference::BookId(id) => r == IdentityQuery::ByBook(GetBook { book_id: id, user_id }),
        },
{
    match reference {
        BookReference::Identifiers(ids) => IdentityQuery::ByIdentifiers(
            GetEdition { isbn: copy_strings(ids), user_id },
        ),
        BookReference::BookId(id) => IdentityQuery::ByBook(GetBook { book_id: *id, user_id }),
    }
}

/// The identifiers and book id that a query by reference carries: the
/// identifiers and no book (0), or no identifiers and the book.
pub open spec fn reference_variables(reference: BookReference, isbn: Seq<String>, book_id: i64) -> bool {
    match reference {
        BookReference::Identifiers(ids) => isbn == ids@ && book_id == 0,
        BookReference::BookId(id) => isbn.len() == 0 && book_id == id,
    }
}

fn variables_of(reference: &BookReference) -> (r: (Vec<String>, i64))
    ensures
        reference_variables(*reference, r.0@, r.1),
{
    match reference {
        BookReference::Identifiers(ids) => (copy_strings(ids), 0),
        BookReference::BookId(id) => (Vec::new(), *id),
    }
}

/// The query for the user's review of a book.
#[derive(Debug)]
pub struct GetUserBookReview {
    pub user_id: i64,
    pub isbn: Vec<String>,
    pub book_id: i64,
}

impl GetUserBookReview {
    pub fn new(reference: &BookReference, user_id: i64) -> (r: GetUserBookReview)
        ensures
            r.user_id == user_id,
            reference_variables(*reference, r.isbn@, r.book_id),
    {
        let (isbn, book_id) = variables_of(reference);
        GetUserBookReview { user_id, isbn, book_id }
    }
}

/// The query for a page of the user's reading journal of a book.
#[derive(Debug)]
pub struct GetReadingJournal {
    pub isbn: Vec<String>,
    pub book_id: i64,
    pub user_id: i64,
    pub limit: i64,
    pub offset: i64,
}

impl GetReadingJournal {
    pub fn new(reference: &BookReference, user_id: i64, limit: i64, offset: i64) -> (r: GetReadingJournal)
        ensures
            r.user_id == user_id,
            r.limit == limit,
            r.offset == offset,
            reference_variables(*reference, r.isbn@, r.book_id),
    {
        let (isbn, book_id) = variables_of(reference);
        GetReadingJournal { isbn, book_id, user_id, limit, offset }
    }
}

/// The query for the user's journal entries made at one moment.
#[derive(Debug)]
pub struct GetJournal {
    pub user_id: i64,
    pub action_at: String,
}

/// The query for a page of books that match a search.
#[derive(Debug)]
pub struct SearchBooks {
    pub query: String,
    pub limit: i64,
    pub page: i64,
}

} // verus!
