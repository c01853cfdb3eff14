//! The failures that the library reports, each with what a user needs to act
//! on it.
use vstd::prelude::*;

use crate::model::{BookReference, ReferenceView};
use crate::text::{decimal, decimal_of, join, joined, views};

verus! {

/// Why an operation could not be carried out.
#[derive(Debug)]
pub enum SyncError {
    /// Nothing on the remote side matches the reference searched for.
    BookNotFound(BookReference),
    /// The book has no edition to record the reading against.
    EditionNotFound { book_id: i64 },
    /// Neither the book nor any candidate edition has a page count; the
    /// reference is the one the book was found by.
    PageCountMissing { book_id: i64, reference: BookReference },
    /// The remote service knows no user for the credentials given.
    UserNotFound,
    /// The user keeps no record of the book searched for.
    UserBookNotFound(BookReference),
    /// The user's record of the book has no reading.
    ReadNotFound { book_id: i64 },
    /// An input that no result can be computed from.
    InvalidInput(String),
    /// The remote service reported failure, with its messages.
    RemoteError(Vec<String>),
}

/// How a reference is named to the user.
pub open spec fn reference_text(r: ReferenceView) -> Seq<char> {
    match r {
        ReferenceView::Identifiers(ids) => "ISBN/ASIN <i>"@ + joined(ids, ", "@) + "</i>"@,
        ReferenceView::BookId(id) => "book id <i>"@ + decimal_of(id as int) + "</i>"@,
    }
}

/// The message shown to the user for an error.
pub open spec fn error_message(e: SyncError) -> Seq<char> {
    match e {
        SyncError::BookNotFound(r) => match r@ {
            ReferenceView::BookId(id) => "Unable to find book id <i>"@ + decimal_of(id as int)
                + "</i> on Hardcover.app. Please manually un-link and re-link book."@,
            ReferenceView::Identifiers(ids) => "Unable to find a book edition on Hardcover.app with ISBN/ASIN <i>"@
                + joined(ids, ", "@) + "</i>. Please manually link book."@,
        },
        SyncError::EditionNotFound { book_id } => "Failed to select edition for book <i>"@
            + decimal_of(book_id as int) + "</i>"@,
        SyncError::PageCountMissing { book_id, reference } => "Unable to find the total page count for book <i>"@
            + decimal_of(book_id as int) + "</i>, found by "@ + reference_text(reference@)
            + ". Please update the book on Hardcover.app with the correct page count."@,
        SyncError::UserNotFound => "Failed to find Hardcover.app user"@,
        SyncError::UserBookNotFound(r) => "Failed to find a user book with "@ + reference_text(r@),
        SyncError::ReadNotFound { book_id } => "Failed to find user read after updating or inserting user book for book <i>"@
            + decimal_of(book_id as int) + "</i>"@,
        SyncError::InvalidInput(reason) => reason@,
        SyncError::RemoteError(messages) => joined(views(messages@), "<br>"@),
    }
}

fn describe_reference(r: &BookReference) -> (s: String)
    ensures
        s@ == reference_text(r@),
{
    match r {
        BookReference::Identifiers(ids) => {
            let mut s = String::from_str("ISBN/ASIN <i>");
            s.append(join(ids, ", ").as_str());
            s.append("</i>");
            s
        },
        BookReference::BookId(id) => {
            let mut s = String::from_str("book id <i>");
            s.append(decimal(*id).as_str());
            s.append("</i>");
            s
        },
    }
}

impl SyncError {
    /// The message shown to the user.
    pub fn message(&self) -> (r: String)
        ensures
            r@ == error_message(*self),
    {
        match self {
            SyncError::BookNotFound(reference) => match reference {
                BookReference::BookId(id) => {
                    let mut s = String::from_str("Unable to find book id <i>");
                    s.append(decimal(*id).as_str());
                    s.append("</i> on Hardcover.app. Please manually un-link and re-link book.");
                    s
                },
                BookReference::Identifiers(ids) => {
                    let mut s = String::from_str(
                        "Unable to find a book edition on Hardcover.app with ISBN/ASIN <i>",
                    );
                    s.append(join(ids, ", ").as_str());
                    s.append("</i>. Please manually link book.");
                    s
                },
            },
            SyncError::EditionNotFound { book_id } => {
                let mut s = String::from_str("Failed to select edition for book <i>");
                s.append(decimal(*book_id).as_str());
                s.append("</i>");
                s
            },
            SyncError::PageCountMissing { book_id, reference } => {
                let mut s = String::from_str("Unable to find the total page count for book <i>");
                s.append(decimal(*book_id).as_str());
                s.append("</i>, found by ");
                s.append(describe_reference(reference).as_str());
                s.append(". Please update the book on Hardcover.app with the correct page count.");
                s
            },
            SyncError::UserNotFound => String::from_str("Failed to find Hardcover.app user"),
            SyncError::UserBookNotFound(reference) => {
                let mut s = String::from_str("Failed to find a user book with ");
                s.append(describe_reference(reference).as_str());
                s
            },
            SyncError::ReadNotFound { book_id } => {
                let mut s = String::from_str(
                    "Failed to find user read after updating or inserting user book for book <i>",
                );
                s.append(decimal(*book_id).as_str());
                s.append("</i>");
                s
            },
            SyncError::InvalidInput(reason) => reason.clone(),
            SyncError::RemoteError(messages) => join(messages, "<br>"),
        }
    }
}

} // verus!
