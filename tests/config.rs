use nickelhardcover::{
    bearer_authorization, eq_ignore_ascii_case, parse_u8, report, Config, SyncBookmarks, SyncOnClose,
};

#[test]
fn sync_bookmarks_names_in_any_case() {
    assert_eq!(SyncBookmarks::from_name("always"), Ok(SyncBookmarks::Always));
    assert_eq!(SyncBookmarks::from_name("NEVER"), Ok(SyncBookmarks::Never));
    assert_eq!(SyncBookmarks::from_name("Finished"), Ok(SyncBookmarks::Finished));
    assert_eq!(SyncBookmarks::from_name("sometimes"), Err("sometimes is not a valid sync_bookmarks value".to_string()));
}

#[test]
fn sync_on_close_names_or_numbers() {
    assert_eq!(SyncOnClose::from_name("Always"), Ok(SyncOnClose::Always));
    assert_eq!(SyncOnClose::from_name("never"), Ok(SyncOnClose::Never));
    assert_eq!(SyncOnClose::from_name("42"), Ok(SyncOnClose::Number(42)));
    assert_eq!(SyncOnClose::from_name("+7"), Ok(SyncOnClose::Number(7)));
    assert_eq!(SyncOnClose::from_name("256"), Err("256 is not a valid sync_on_close value".to_string()));
    assert_eq!(SyncOnClose::from_name("-1"), Err("-1 is not a valid sync_on_close value".to_string()));
}

#[test]
fn byte_parsing_matches_std() {
    for s in ["0", "255", "256", "007", "+", "", "+12", "-0", "1a", "99999999999999999999", " 1"] {
        assert_eq!(parse_u8(s), s.parse::<u8>().ok(), "{s}");
    }
}

#[test]
fn ascii_case_folding() {
    assert!(eq_ignore_ascii_case("FiNiShEd", "finished"));
    assert!(!eq_ignore_ascii_case("finishe", "finished"));
    assert!(!eq_ignore_ascii_case("ÄLWAYS", "älways"));
}

#[test]
fn default_settings() {
    let c = Config::default();
    assert_eq!(c.authorization, "");
    assert!(!c.auto_sync_default);
    assert!(!c.debug);
    assert_eq!(c.sqlite_path, "/mnt/onboard/.kobo/KoboReader.sqlite");
    assert_eq!(c.sync_bookmarks, SyncBookmarks::Always);
    assert_eq!(c.sync_on_close, SyncOnClose::Always);
    assert_eq!(c.threshold, 20);
}

#[test]
fn bearer_prefix_added_once() {
    assert_eq!(bearer_authorization("abc".to_string()), "Bearer abc");
    assert_eq!(bearer_authorization("Bearer abc".to_string()), "Bearer abc");
    assert_eq!(bearer_authorization(String::new()), "");
}

#[test]
fn report_lists_error_chain() {
    assert_eq!(report("Failed to read config file", &vec![]), "Failed to read config file");
    assert_eq!(
        report("Failed", &vec!["outer".to_string(), "inner".to_string()]),
        "Failed<br>> outer<br>> inner"
    );
}
