//! The remote service's records as the library reads them.
use vstd::prelude::*;

use crate::codec::Json;
use crate::text::views;

verus! {

/// An edition of a book: its id and, where known, its page count.
#[derive(Clone, Copy, Debug, PartialEq, Eq)]
pub struct EditionRef {
    pub id: i64,
    pub pages: Option<i64>,
}

/// One reading of a book by the user.
#[derive(Debug)]
pub struct UserRead {
    pub id: i64,
    pub started_at: Option<String>,
    pub edition: Option<EditionRef>,
}

/// The user's record of a book.
///
/// `rating` counts hundredths of a star; the service has no rating of zero.
#[derive(Debug)]
pub struct UserBook {
    pub id: i64,
    pub status_id: i64,
    pub rating: Option<u32>,
    pub review_slate: Json,
    pub review_has_spoilers: bool,
    pub sponsored_review: bool,
    pub reviewed_at: Option<String>,
    pub edition: Option<EditionRef>,
    /// The user's readings of the book, the most recent first.
    pub user_book_reads: Vec<UserRead>,
}

/// A book with the candidates for its edition and the user's record of it.
#[derive(Debug)]
pub struct Book {
    pub id: i64,
    pub pages: Option<i64>,
    /// The editions that matched the identifiers searched for, best first.
    pub editions: Vec<EditionRef>,
    pub default_ebook_edition: Option<EditionRef>,
    pub default_cover_edition: Option<EditionRef>,
    /// The user's record of the book, if any, first.
    pub user_books: Vec<UserBook>,
}

/// What a local book is known by on the remote side: its industry
/// identifiers (ISBN-10, ISBN-13 or ASIN), or the remote id of the book.
#[derive(Debug)]
pub enum BookReference {
    Identifiers(Vec<String>),
    BookId(i64),
}

/// A book reference as mathematical values.
pub enum ReferenceView {
    Identifiers(Seq<Seq<char>>),
    BookId(i64),
}

impl View for BookReference {
    type V = ReferenceView;

    open spec fn view(&self) -> ReferenceView {
        match self {
            BookReference::Identifiers(ids) => ReferenceView::Identifiers(views(ids@)),
            BookReference::BookId(id) => ReferenceView::BookId(*id),
        }
    }
}

/// A copy of a list of strings.
pub fn copy_strings(v: &Vec<String>) -> (r: Vec<String>)
    ensures
        r@ == v@,
{
    let mut out: Vec<String> = Vec::new();
    let mut i: usize = 0;
    while i < v.len()
        invariant
            i <= v@.len(),
            out@ == v@.subrange(0, i as int),
        decreases v.len() - i,
    {
        out.push(v[i].clone());
        i = i + 1;
        assert(out@ =~= v@.subrange(0, i as int));
    }
    assert(v@.subrange(0, v@.len() as int) =~= v@);
    out
}

impl BookReference {
    /// The reference for a local book: its identifiers where it has any, else
    /// the remote book id.
    pub fn from_parts(identifiers: Vec<String>, book_id: i64) -> (r: BookReference)
        ensures
            identifiers@.len() > 0 ==> r == BookReference::Identifiers(identifiers),
            identifiers@.len() == 0 ==> r == BookReference::BookId(book_id),
    {
        if identifiers.len() > 0 {
            BookReference::Identifiers(identifiers)
        } else {
            BookReference::BookId(book_id)
        }
    }

    /// A copy of this reference.
    pub fn duplicate(&self) -> (r: BookReference)
        ensures
            r@ == self@,
    {
        match self {
            BookReference::Identifiers(ids) => BookReference::Identifiers(copy_strings(ids)),
            BookReference::BookId(id) => BookReference::BookId(*id),
        }
    }
}

} // verus!
