use nickelhardcover::{compute_location, page_for_location, Location, PositionError, PROGRESS_SCALE};

fn ratio(l: &Location) -> f64 {
    l.num as f64 / l.den as f64
}

#[test]
fn location_of_bookmark_half_way_through_chapter() {
    let loc = compute_location(1000, 200, PROGRESS_SCALE / 2, 300).unwrap();
    assert_eq!(loc.num, 300 * 1_000_000 + 200 * 500_000);
    assert_eq!(loc.den, 1000 * 1_000_000);
    assert!((ratio(&loc) - 0.40).abs() < 1e-12);
    assert_eq!(page_for_location(loc, 250), Some(100));
    assert_eq!(loc.percent_num() as f64 / loc.den as f64, 40.0);
}

#[test]
fn zero_total_words_is_invalid_input() {
    assert_eq!(compute_location(0, 200, 500_000, 300), Err(PositionError::InvalidInput));
    assert_eq!(compute_location(0, 0, 0, 0), Err(PositionError::InvalidInput));
}

#[test]
fn location_grows_with_chapter_progress_and_stays_in_chapter() {
    let mut last = 0.0;
    for p in [0u32, 1, 250_000, 500_000, 999_999, 1_000_000] {
        let loc = compute_location(5000, 400, p, 1200).unwrap();
        let r = ratio(&loc);
        assert!(r >= last);
        assert!(r >= 0.0 && r <= (1200.0 + 400.0) / 5000.0 + 1e-12);
        last = r;
    }
    let end_of_chapter = compute_location(5000, 400, PROGRESS_SCALE, 1200).unwrap();
    let next_start = compute_location(5000, 300, 0, 1600).unwrap();
    assert!(ratio(&end_of_chapter) <= ratio(&next_start));
}

#[test]
fn page_rounds_half_away_from_zero() {
    let half = Location { num: 1, den: 2 };
    assert_eq!(page_for_location(half, 3), Some(2));
    assert_eq!(page_for_location(half, -3), Some(-2));
    assert_eq!(page_for_location(half, 0), Some(0));
    let third = Location { num: 1, den: 3 };
    assert_eq!(page_for_location(third, 100), Some(33));
    let whole = Location { num: 7, den: 7 };
    assert_eq!(page_for_location(whole, i64::MAX), Some(i64::MAX));
    assert_eq!(page_for_location(whole, i64::MIN), Some(i64::MIN));
}

#[test]
fn page_past_the_end_of_the_book() {
    let beyond = Location { num: 3, den: 2 };
    assert_eq!(page_for_location(beyond, 100), Some(150));
    assert_eq!(page_for_location(beyond, -101), Some(-152));
    assert_eq!(page_for_location(beyond, i64::MAX), None);
    assert_eq!(page_for_location(beyond, i64::MIN), None);
    assert_eq!(page_for_location(Location { num: u128::MAX, den: 1 }, 1), None);
    assert_eq!(page_for_location(Location { num: u128::MAX, den: 1 }, 0), Some(0));
    assert_eq!(page_for_location(Location { num: 1 << 63, den: 1 }, -1), Some(i64::MIN));
    assert_eq!(page_for_location(Location { num: 1 << 63, den: 1 }, 1), None);
}

#[test]
fn progress_beyond_the_chapter_passes_through() {
    let loc = compute_location(100, 10, 2 * PROGRESS_SCALE, 0).unwrap();
    assert!((ratio(&loc) - 0.2).abs() < 1e-12);
    let past = compute_location(100, 50, 3 * PROGRESS_SCALE, 80).unwrap();
    assert_eq!(page_for_location(past, 10), Some(23));
}
