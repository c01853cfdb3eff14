use nickelhardcover::{
    action_at, bookmark_entries, needs_history, reconcile_bookmark, insert_or_update_journal, Bookmark, InsertReadingJournal,
    JournalAction, JournalEvent, Location, ReadingJournal, SyncBookmarks, Update, PROGRESS_SCALE,
};

fn target(event: JournalEvent, text: &str) -> InsertReadingJournal {
    InsertReadingJournal {
        book_id: 1,
        edition_id: 2,
        event,
        entry: text.to_string(),
        action_at: Some("2024-01-01".to_string()),
        page: 10,
        possible: 100,
        location: Location { num: 1, den: 10 },
    }
}

fn journal(id: i64, event: &str, entry: &str) -> ReadingJournal {
    ReadingJournal { id, event: Some(event.to_string()), entry: Some(entry.to_string()) }
}

#[test]
fn same_quote_text_is_skipped() {
    let r = insert_or_update_journal(target(JournalEvent::Quote, "A"), &vec![journal(9, "quote", "A")]);
    assert!(matches!(r, JournalAction::Skip { journal_id: 9 }));
}

#[test]
fn different_quote_text_is_updated_once() {
    let r = insert_or_update_journal(target(JournalEvent::Quote, "B"), &vec![journal(9, "quote", "A")]);
    match r {
        JournalAction::Update { journal_id, entry } => {
            assert_eq!(journal_id, 9);
            assert_eq!(entry, "B");
        }
        _ => panic!("expected one update"),
    }
}

#[test]
fn no_existing_entry_is_inserted_once() {
    match insert_or_update_journal(target(JournalEvent::Quote, "A"), &vec![]) {
        JournalAction::Insert(t) => {
            assert_eq!(t.entry, "A");
            assert_eq!(t.page, 10);
        }
        _ => panic!("expected one insert"),
    }
}

#[test]
fn entries_of_other_kind_do_not_match() {
    let existing = vec![journal(3, "note", "A"), ReadingJournal { id: 4, event: None, entry: Some("A".to_string()) }];
    assert!(matches!(insert_or_update_journal(target(JournalEvent::Quote, "A"), &existing), JournalAction::Insert(_)));
    let r = insert_or_update_journal(target(JournalEvent::Note, "A"), &existing);
    assert!(matches!(r, JournalAction::Skip { journal_id: 3 }));
    let first = vec![journal(5, "note", "X"), journal(6, "note", "A")];
    assert!(matches!(insert_or_update_journal(target(JournalEvent::Note, "A"), &first), JournalAction::Update { journal_id: 5, .. }));
}

fn bookmark(text: &str, annotation: &str) -> Bookmark {
    Bookmark::from_counts(text.to_string(), annotation.to_string(), "2024-03-01".to_string(), 1000, 200, PROGRESS_SCALE / 2, 300)
        .unwrap()
}

#[test]
fn bookmark_gives_quote_and_note() {
    let b = bookmark("passage", "my note");
    let at = Some("2024-03-01".to_string());
    let es = bookmark_entries(&b, 1, 2, 250, &at);
    assert_eq!(es.len(), 2);
    assert_eq!(es[0].event, JournalEvent::Quote);
    assert_eq!(es[0].entry, "passage");
    assert_eq!(es[0].page, 100);
    assert_eq!(es[0].possible, 250);
    assert_eq!(es[0].location.percent_num() as f64 / es[0].location.den as f64, 40.0);
    assert_eq!(es[1].event, JournalEvent::Note);
    assert_eq!(es[1].entry, "my note");
    assert_eq!(es[1].action_at, at);
    assert_eq!(bookmark_entries(&bookmark("passage", ""), 1, 2, 250, &at).len(), 1);
    assert!(bookmark_entries(&bookmark("", "note only"), 1, 2, 250, &at).is_empty());
}

#[test]
fn bookmark_reconciled_entry_by_entry() {
    let b = bookmark("passage", "my note");
    let history = vec![journal(1, "quote", "passage"), journal(2, "note", "old note")];
    let actions = reconcile_bookmark(&b, &history, 1, 2, 250, &None);
    assert_eq!(actions.len(), 2);
    assert!(matches!(actions[0], JournalAction::Skip { journal_id: 1 }));
    assert!(matches!(&actions[1], JournalAction::Update { journal_id: 2, entry } if entry == "my note"));
    let fresh = reconcile_bookmark(&b, &vec![], 1, 2, 250, &None);
    assert!(fresh.iter().all(|a| matches!(a, JournalAction::Insert(_))));
}

#[test]
fn history_only_for_bookmarks_older_than_cutoff() {
    let after = Some("2024-02-01".to_string());
    assert!(needs_history(&"2024-01-15".to_string(), &after));
    assert!(!needs_history(&"2024-02-01".to_string(), &after));
    assert!(!needs_history(&"2024-03-01".to_string(), &after));
    assert!(!needs_history(&"2024-01-15".to_string(), &None));
}

#[test]
fn bookmark_window_follows_setting() {
    let up = |value: i64| Update { content_id: "c".to_string(), book_id: None, value, after: Some("2024-02-01".to_string()) };
    assert_eq!(up(50).bookmark_cutoff(SyncBookmarks::Never), None);
    assert_eq!(up(50).bookmark_cutoff(SyncBookmarks::Finished), None);
    assert_eq!(up(100).bookmark_cutoff(SyncBookmarks::Finished), Some(None));
    assert_eq!(up(50).bookmark_cutoff(SyncBookmarks::Always), Some(Some("2024-02-01".to_string())));
    let d = "2024-01-01".to_string();
    assert_eq!(action_at(SyncBookmarks::Finished, &d), None);
    assert_eq!(action_at(SyncBookmarks::Always, &d), Some(d.clone()));
    let b = bookmark("p", "");
    let old = Bookmark { date_created: "2024-01-01".to_string(), ..b };
    let q = up(50).history_query(8, &old).unwrap();
    assert_eq!((q.user_id, q.action_at.as_str()), (8, "2024-01-01"));
    assert!(up(50).history_query(8, &bookmark("p", "")).is_none());
    assert!(up(50).needs_identifiers());
    assert_eq!(up(50).user_book_update().status_id, Some(2));
}

#[test]
fn bookmark_in_empty_book_is_invalid() {
    assert!(Bookmark::from_counts("t".to_string(), String::new(), String::new(), 0, 1, 1, 1).is_err());
    assert_eq!(JournalEvent::Quote.name(), "quote");
    assert_eq!(JournalEvent::Note.name(), "note");
}

#[test]
fn bookmark_past_the_end_still_gets_a_page() {
    let b = Bookmark::from_counts("late".to_string(), String::new(), "2024-03-01".to_string(), 100, 50, 3 * PROGRESS_SCALE, 80)
        .unwrap();
    let es = bookmark_entries(&b, 1, 2, 10, &None);
    assert_eq!(es.len(), 1);
    assert_eq!(es[0].page, 23);
    let huge = Bookmark { location: Location { num: u128::MAX, den: 1 }, ..bookmark("p", "n") };
    assert!(bookmark_entries(&huge, 1, 2, 10, &None).is_empty());
    assert!(reconcile_bookmark(&huge, &vec![], 1, 2, 10, &None).is_empty());
}
