//! Mapping a local book reference to one remote book, edition and page count.
use vstd::prelude::*;

use crate::error::SyncError;
use crate::model::{Book, BookReference, EditionRef, UserBook};

verus! {

/// The remote identity of a local book.
#[derive(Debug)]
pub struct Identity {
    pub book_id: i64,
    pub edition_id: i64,
    pub pages: i64,
    /// The user's record of the book, with its readings, if the user has one.
    pub user_book: Option<UserBook>,
}

/// The first value present in `candidates`.
pub open spec fn first_present(candidates: Seq<Option<i64>>) -> Option<i64>
    decreases candidates.len(),
{
    if candidates.len() == 0 {
        None
    } else if candidates[0] is Some {
        candidates[0]
    } else {
        first_present(candidates.drop_first())
    }
}

pub open spec fn id_of(e: Option<EditionRef>) -> Option<i64> {
    match e {
        Some(x) => Some(x.id),
        None => None,
    }
}

pub open spec fn pages_of(e: Option<EditionRef>) -> Option<i64> {
    match e {
        Some(x) => x.pages,
        None => None,
    }
}

/// The edition that the user's record of the book is linked to.
pub open spec fn linked_edition(b: Book) -> Option<EditionRef> {
    if b.user_books@.len() > 0 {
        b.user_books@[0].edition
    } else {
        None
    }
}

/// The first edition that matched the identifiers searched for.
pub open spec fn matched_edition(b: Book) -> Option<EditionRef> {
    if b.editions@.len() > 0 {
        Some(b.editions@[0])
    } else {
        None
    }
}

/// The editions to choose from, in order of preference.
pub open spec fn edition_candidates(b: Book) -> Seq<Option<i64>> {
    seq![
        id_of(linked_edition(b)),
        id_of(matched_edition(b)),
        id_of(b.default_ebook_edition),
        id_of(b.default_cover_edition),
    ]
}

/// The page counts to choose from, in order of preference.
pub open spec fn page_candidates(b: Book) -> Seq<Option<i64>> {
    seq![
        pages_of(linked_edition(b)),
        pages_of(matched_edition(b)),
        pages_of(b.default_ebook_edition),
        pages_of(b.default_cover_edition),
        b.pages,
    ]
}

pub open spec fn selected_edition(b: Book) -> Option<i64> {
    first_present(edition_candidates(b))
}

pub open spec fn selected_pages(b: Book) -> Option<i64> {
    first_present(page_candidates(b))
}

/// The user's record of a book, if any.
pub open spec fn user_book_of(b: Book) -> Option<UserBook> {
    if b.user_books@.len() > 0 {
        Some(b.user_books@[0])
    } else {
        None
    }
}

/// What resolving a reference against the books that matched it gives.
pub open spec fn resolution(reference: BookReference, matches: Seq<Book>) -> Result<
    Identity,
    SyncError,
> {
    if matches.len() == 0 {
        Err(SyncError::BookNotFound(reference))
    } else {
        let b = matches[0];
        match (selected_edition(b), selected_pages(b)) {
            (None, _) => Err(SyncError::EditionNotFound { book_id: b.id }),
            (Some(_), None) => Err(SyncError::PageCountMissing { book_id: b.id, reference }),
            (Some(edition_id), Some(pages)) => Ok(
                Identity { book_id: b.id, edition_id, pages, user_book: user_book_of(b) },
            ),
        }
    }
}

/// The first value present in `candidates`.
pub fn first_present_of(candidates: &Vec<Option<i64>>) -> (r: Option<i64>)
    ensures
        r == first_present(candidates@),
{
    let mut i: usize = 0;
    assert(candidates@.skip(0) =~= candidates@);
    while i < candidates.len()
        invariant
            i <= candidates@.len(),
            first_present(candidates@) == first_present(candidates@.skip(i as int)),
        decreases candidates.len() - i,
    {
        assert(candidates@.skip(i as int).drop_first() =~= candidates@.skip(i + 1));
        if candidates[i].is_some() {
            return candidates[i];
        }
        i = i + 1;
    }
    None
}

fn edition_id(e: &Option<EditionRef>) -> (r: Option<i64>)
    ensures
        r == id_of(*e),
{
    match e {
        Some(x) => Some(x.id),
        None => None,
    }
}

fn edition_pages(e: &Option<EditionRef>) -> (r: Option<i64>)
    ensures
        r == pages_of(*e),
{
    match e {
        Some(x) => x.pages,
        None => None,
    }
}

fn linked_edition_of(b: &Book) -> (r: Option<EditionRef>)
    ensures
        r == linked_edition(*b),
{
    if b.user_books.len() > 0 {
        b.user_books[0].edition
    } else {
        None
    }
}

fn matched_edition_of(b: &Book) -> (r: Option<EditionRef>)
    ensures
        r == matched_edition(*b),
{
    if b.editions.len() > 0 {
        Some(b.editions[0])
    } else {
        None
    }
}

/// The edition to record a reading of `b` against: the one the user's record
/// is linked to, else the first that matched, else the default e-book
/// edition, else the default cover edition.
pub fn select_edition(b: &Book) -> (r: Option<i64>)
    ensures
        r == selected_edition(*b),
{
    let candidates = vec![
        edition_id(&linked_edition_of(b)),
        edition_id(&matched_edition_of(b)),
        edition_id(&b.default_ebook_edition),
        edition_id(&b.default_cover_edition),
    ];
    assert(candidates@ =~= edition_candidates(*b));
    first_present_of(&candidates)
}

/// The page count of `b`: that of the edition the user's record is linked to,
/// else of the first that matched, else of the default e-book edition, else of
/// the default cover edition, else the book's own.
pub fn select_pages(b: &Book) -> (r: Option<i64>)
    ensures
        r == selected_pages(*b),
{
    let candidates = vec![
        edition_pages(&linked_edition_of(b)),
        edition_pages(&matched_edition_of(b)),
        edition_pages(&b.default_ebook_edition),
        edition_pages(&b.default_cover_edition),
        b.pages,
    ];
    assert(candidates@ =~= page_candidates(*b));
    first_present_of(&candidates)
}

/// Resolves a reference against the books that the remote side matched to it
/// in one query, best match first.
pub fn resolve_identity(reference: BookReference, matches: Vec<Book>) -> (r: Result<
    Identity,
    SyncError,
>)
    ensures
        r == resolution(reference, matches@),
{
    if matches.len() == 0 {
        return Err(SyncError::BookNotFound(reference));
    }
    let mut matches = matches;
    let ghost all = matches@;
    let mut book = matches.swap_remove(0);
    assert(book == all[0]);
    let edition_id = match select_edition(&book) {
        Some(id) => id,
        None => return Err(SyncError::EditionNotFound { book_id: book.id }),
    };
    let pages = match select_pages(&book) {
        Some(p) => p,
        None => return Err(SyncError::PageCountMissing { book_id: book.id, reference }),
    };
    let user_book = if book.user_books.len() > 0 {
        Some(book.user_books.swap_remove(0))
    } else {
        None
    };
    Ok(Identity { book_id: book.id, edition_id, pages, user_book })
}

/// Whichever editions matched first, a book whose user record is linked to an
/// edition is resolved to that edition.
pub proof fn lemma_linked_edition_wins(a: Book, b: Book)
    requires
        linked_edition(a) is Some,
        linked_edition(b) == linked_edition(a),
    ensures
        selected_edition(a) == Some(linked_edition(a)->0.id),
        selected_edition(b) == selected_edition(a),
{
    reveal_with_fuel(first_present, 2);
}

/// Where the linked edition has no page count and the first matched edition
/// has one, that count is the book's, whatever the default editions and the
/// book itself say.
pub proof fn lemma_matched_pages_follow_linked(b: Book)
    requires
        pages_of(linked_edition(b)) is None,
        pages_of(matched_edition(b)) is Some,
    ensures
        selected_pages(b) == pages_of(matched_edition(b)),
{
    reveal_with_fuel(first_present, 3);
    assert(page_candidates(b).drop_first()[0] == pages_of(matched_edition(b)));
}

} // verus!
