//! Matching local highlights and notes to the remote reading journal, with
//! as few writes as keep the two in step.
use vstd::prelude::*;

use crate::position::{compute_location, fits_page, page_for_location, page_of, Location, PositionError};
use crate::text::{less_than, text_lt};

verus! {

/// The kind of a journal entry.
#[derive(Clone, Copy, Debug, PartialEq, Eq)]
pub enum JournalEvent {
    /// A highlighted passage.
    Quote,
    /// A note written about a passage.
    Note,
}

pub open spec fn event_name(e: JournalEvent) -> Seq<char> {
    match e {
        JournalEvent::Quote => seq!['q', 'u', 'o', 't', 'e'],
        JournalEvent::Note => seq!['n', 'o', 't', 'e'],
    }
}

impl JournalEvent {
    /// The name the remote service knows the kind by.
    pub fn name(&self) -> (r: String)
        ensures
            r@ == event_name(*self),
    {
        proof {
            reveal_strlit("quote");
            reveal_strlit("note");
        }
        match self {
            JournalEvent::Quote => String::from_str("quote"),
            JournalEvent::Note => String::from_str("note"),
        }
    }
}

/// The request that adds an entry to the reading journal. Its percentage is
/// `100 * location`.
#[derive(Debug)]
pub struct InsertReadingJournal {
    pub book_id: i64,
    pub edition_id: i64,
    pub event: JournalEvent,
    pub entry: String,
    pub action_at: Option<String>,
    pub page: i64,
    pub possible: i64,
    pub location: Location,
}

/// An entry of the remote reading journal.
#[derive(Debug)]
pub struct ReadingJournal {
    pub id: i64,
    pub event: Option<String>,
    pub entry: Option<String>,
}

/// What bringing one entry into the journal takes.
#[derive(Debug)]
pub enum JournalAction {
    /// No entry of its kind exists: add it.
    Insert(InsertReadingJournal),
    /// An entry of its kind holds other text: replace the text alone.
    Update { journal_id: i64, entry: String },
    /// An entry of its kind already holds the text.
    Skip { journal_id: i64 },
}

/// Whether `j` is an entry of the kind named `event`.
pub open spec fn of_kind(j: ReadingJournal, event: Seq<char>) -> bool {
    j.event matches Some(e) && e@ == event
}

/// Whether `j` holds the text `entry`.
pub open spec fn holds_text(j: ReadingJournal, entry: Seq<char>) -> bool {
    j.entry matches Some(e) && e@ == entry
}

/// The first entry of `journals` of the kind named `event`.
pub open spec fn first_of_kind(journals: Seq<ReadingJournal>, event: Seq<char>) -> Option<
    ReadingJournal,
>
    decreases journals.len(),
{
    if journals.len() == 0 {
        None
    } else if of_kind(journals[0], event) {
        Some(journals[0])
    } else {
        first_of_kind(journals.drop_first(), event)
    }
}

/// Whether `action` brings `target` into a journal that holds `journals`.
pub open spec fn reconciles(
    action: JournalAction,
    target: InsertReadingJournal,
    journals: Seq<ReadingJournal>,
) -> bool {
    match first_of_kind(journals, event_name(target.event)) {
        None => action == JournalAction::Insert(target),
        Some(j) => if holds_text(j, target.entry@) {
            action == (JournalAction::Skip { journal_id: j.id })
        } else {
            action == (JournalAction::Update { journal_id: j.id, entry: target.entry })
        },
    }
}

/// Decides how to bring `target` into a journal that holds `journals`: add
/// it where no entry of its kind exists, replace the text of the first such
/// entry where that differs, and write nothing where it is the same.
pub fn insert_or_update_journal(target: InsertReadingJournal, journals: &Vec<ReadingJournal>) -> (r:
    JournalAction)
    ensures
        reconciles(r, target, journals@),
{
    let name = target.event.name();
    let mut i: usize = 0;
    assert(journals@.skip(0) =~= journals@);
    while i < journals.len()
        invariant
            i <= journals@.len(),
            name@ == event_name(target.event),
            first_of_kind(journals@, name@) == first_of_kind(journals@.skip(i as int), name@),
        decreases journals.len() - i,
    {
        assert(journals@.skip(i as int).drop_first() =~= journals@.skip(i + 1));
        let journal = &journals[i];
        let same_kind = match &journal.event {
            Some(e) => *e == name,
            None => false,
        };
        if same_kind {
            let same_text = match &journal.entry {
                Some(e) => *e == target.entry,
                None => false,
            };
            if same_text {
                return JournalAction::Skip { journal_id: journal.id };
            } else {
                return JournalAction::Update { journal_id: journal.id, entry: target.entry };
            }
        }
        i = i + 1;
    }
    JournalAction::Insert(target)
}

/// A journal whose entry of the target's kind already holds its text needs no
/// write; one whose entry holds other text needs that text replaced; one with
/// no entry of the kind needs the target added.
pub proof fn lemma_reconcile_outcomes(target: InsertReadingJournal, journals: Seq<ReadingJournal>, action: JournalAction)
    requires
        reconciles(action, target, journals),
    ensures
        journals.len() == 0 ==> action == JournalAction::Insert(target),
        journals.len() == 1 && of_kind(journals[0], event_name(target.event)) ==> (if holds_text(
            journals[0],
            target.entry@,
        ) {
            action == (JournalAction::Skip { journal_id: journals[0].id })
        } else {
            action == (JournalAction::Update { journal_id: journals[0].id, entry: target.entry })
        }),
{
}

/// A highlight or note made on the reading device.
#[derive(Debug)]
pub struct Bookmark {
    /// The passage highlighted; a bookmark without one is not synchronised.
    pub text: String,
    /// The note written on the passage, if any.
    pub annotation: String,
    pub date_created: String,
    pub location: Location,
}

impl Bookmark {
    /// A bookmark at `chapter_progress` millionths of a chapter of
    /// `chapter_words` words, after `preceding_words` words, in a book of
    /// `total_words` words.
    pub fn from_counts(
        text: String,
        annotation: String,
        date_created: String,
        total_words: u32,
        chapter_words: u32,
        chapter_progress: u32,
        preceding_words: u32,
    ) -> (r: Result<Bookmark, PositionError>)
        ensures
            total_words == 0 ==> r == Err::<Bookmark, PositionError>(PositionError::InvalidInput),
            total_words > 0 ==> (r matches Ok(b) && b.text == text && b.annotation == annotation
                && b.date_created == date_created && b.location == crate::position::location_of(
                total_words,
                chapter_words,
                chapter_progress,
                preceding_words,
            )),
    {
        match compute_location(total_words, chapter_words, chapter_progress, preceding_words) {
            Ok(location) => Ok(Bookmark { text, annotation, date_created, location }),
            Err(e) => Err(e),
        }
    }
}

/// Whether a bookmark is matched against the journal's history before it is
/// written: only where it was made strictly before the cutoff `after`.
pub open spec fn history_needed(date_created: Seq<char>, after: Option<String>) -> bool {
    after matches Some(a) && text_lt(date_created, a@)
}

/// Whether a bookmark made at `date_created` is matched against the journal's
/// history before it is written.
pub fn needs_history(date_created: &String, after: &Option<String>) -> (r: bool)
    ensures
        r == history_needed(date_created@, *after),
{
    match after {
        Some(a) => less_than(date_created.as_str(), a.as_str()),
        None => false,
    }
}

/// The journal entries that a bookmark gives: a quote of its text and, where
/// it has one, a note of its annotation, both on the page it falls on in an
/// edition of `pages` pages.
pub open spec fn bookmark_entry(
    e: InsertReadingJournal,
    b: Bookmark,
    event: JournalEvent,
    entry: Seq<char>,
    book_id: i64,
    edition_id: i64,
    pages: i64,
    action_at: Option<String>,
) -> bool {
    &&& e.book_id == book_id
    &&& e.edition_id == edition_id
    &&& e.event == event
    &&& e.entry@ == entry
    &&& e.action_at == action_at
    &&& e.page == page_of(b.location, pages as int)
    &&& e.possible == pages
    &&& e.location == b.location
}

/// Whether `entries` are the journal entries of bookmark `b`: none for a
/// bookmark without text or whose page is not an `i64`.
pub open spec fn bookmark_entries_of(
    entries: Seq<InsertReadingJournal>,
    b: Bookmark,
    book_id: i64,
    edition_id: i64,
    pages: i64,
    action_at: Option<String>,
) -> bool {
    if b.text@.len() == 0 || !fits_page(page_of(b.location, pages as int)) {
        entries.len() == 0
    } else if b.annotation@.len() == 0 {
        &&& entries.len() == 1
        &&& bookmark_entry(entries[0], b, JournalEvent::Quote, b.text@, book_id, edition_id, pages, action_at)
    } else {
        &&& entries.len() == 2
        &&& bookmark_entry(entries[0], b, JournalEvent::Quote, b.text@, book_id, edition_id, pages, action_at)
        &&& bookmark_entry(entries[1], b, JournalEvent::Note, b.annotation@, book_id, edition_id, pages, action_at)
    }
}

/// The journal entries of a bookmark, a quote first and then any note.
pub fn bookmark_entries(
    b: &Bookmark,
    book_id: i64,
    edition_id: i64,
    pages: i64,
    action_at: &Option<String>,
) -> (r: Vec<InsertReadingJournal>)
    requires
        b.location.well_formed(),
        b.location.den <= u64::MAX,
    ensures
        bookmark_entries_of(r@, *b, book_id, edition_id, pages, *action_at),
{
    let mut out: Vec<InsertReadingJournal> = Vec::new();
    if b.text.unicode_len() == 0 {
        return out;
    }
    let page = match page_for_location(b.location, pages) {
        Some(p) => p,
        None => return out,
    };
    out.push(
        InsertReadingJournal {
            book_id,
            edition_id,
            event: JournalEvent::Quote,
            entry: b.text.clone(),
            action_at: action_at.clone(),
            page,
            possible: pages,
            location: b.location,
        },
    );
    if b.annotation.unicode_len() > 0 {
        out.push(
            InsertReadingJournal {
                book_id,
                edition_id,
                event: JournalEvent::Note,
                entry: b.annotation.clone(),
                action_at: action_at.clone(),
                page,
                possible: pages,
                location: b.location,
            },
        );
    }
    out
}

/// Decides, for each journal entry of a bookmark in turn, how to bring it into
/// a journal that holds `journals`.
pub fn reconcile_bookmark(
    b: &Bookmark,
    journals: &Vec<ReadingJournal>,
    book_id: i64,
    edition_id: i64,
    pages: i64,
    action_at: &Option<String>,
) -> (r: Vec<JournalAction>)
    requires
        b.location.well_formed(),
        b.location.den <= u64::MAX,
    ensures
        exists|entries: Seq<InsertReadingJournal>|
            {
                &&& bookmark_entries_of(entries, *b, book_id, edition_id, pages, *action_at)
                &&& #[trigger] entries.len() == r@.len()
                &&& forall|i: int| 0 <= i < r@.len() ==> reconciles(#[trigger] r@[i], entries[i], journals@)
            },
{
    let mut entries = bookmark_entries(b, book_id, edition_id, pages, action_at);
    let ghost all = entries@;
    let mut out: Vec<JournalAction> = Vec::new();
    let n = entries.len();
    let mut i: usize = 0;
    while i < n
        invariant
            n == all.len(),
            i <= n,
            entries@ == all.subrange(i as int, n as int),
            out@.len() == i,
            forall|k: int| 0 <= k < i ==> reconciles(#[trigger] out@[k], all[k], journals@),
        decreases n - i,
    {
        let target = entries.remove(0);
        assert(entries@ =~= all.subrange(i + 1, n as int));
        out.push(insert_or_update_journal(target, journals));
        i = i + 1;
    }
    assert(all.len() == out@.len());
    out
}

} // verus!
