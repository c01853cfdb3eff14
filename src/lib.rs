//! Keeps a reader's local progress, highlights and notes in step with a
//! remote book-tracking service.
//!
//! The library resolves a local book to one remote book, edition and page
//! count, decides which writes bring the user's record of the book and the
//! reading journal in line with the device, converts chapter progress into a
//! position in the book, and converts review text to and from the service's
//! rich-text documents. Running the remote queries and reading the device's
//! files is left to the caller.

pub mod codec;
pub mod commands;
pub mod config;
pub mod error;
pub mod isbn;
pub mod journal;
pub mod model;
pub mod position;
pub mod requests;
pub mod resolve;
pub mod review;
pub mod sync;
pub mod text;

pub use codec::{decode_review, encode_review, node_text_of, Json};
pub use commands::{
    action_at, reference_for, require_book_source, GetUserBook, InsertJournal, ListJournal, Search, SetUserBook, Update,
};
pub use config::{bearer_authorization, eq_ignore_ascii_case, parse_u8, report, Config, SyncBookmarks, SyncOnClose};
pub use error::SyncError;
pub use journal::{
    bookmark_entries, needs_history, reconcile_bookmark, insert_or_update_journal, Bookmark, InsertReadingJournal,
    JournalAction, JournalEvent, ReadingJournal,
};
pub use isbn::{
    get_identifiers, get_isbn, get_oebps_path, identifier_from_text, identifiers_from_events, isbn_source,
    oebps_path_from_events, package_path, scan_identifiers, IdentifierScan, IsbnLookup, IsbnSource, ScanStep, XmlEvent,
};
pub use model::{copy_strings, Book, BookReference, EditionRef, UserBook, UserRead};
pub use position::{compute_location, page_for_location, Location, PositionError, PROGRESS_SCALE};
pub use requests::{
    identity_query, GetBook, GetEdition, GetJournal, GetReadingJournal, GetUserBookReview, GetUserId, IdentityQuery,
    SearchBooks,
};
pub use resolve::{first_present_of, resolve_identity, select_edition, select_pages, Identity};
pub use review::{get_review, journal_review, requested_update, review_of, Review, UpdateReview};
pub use sync::{
    update_or_insert_user_book, progress_pages, progress_update, InsertUserBook, UpdateRead, UpdateUserBookStatus, UserBookAction,
    UserBookUpdate, UserBookUpdateInput, CURRENTLY_READING,
};
pub use text::{decimal, is_white_space, join, less_than, starts_with, trim};
