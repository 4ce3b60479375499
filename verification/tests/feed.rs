use intersection_observer_bug::debounce::Action;
use intersection_observer_bug::feed::Feed;

#[test]
fn fresh_feed() {
    let feed = Feed::new();
    assert_eq!(feed.backing(), &vec![0]);
    assert_eq!(feed.len(), 1);
    assert_eq!(feed.current_index(), 0);
    assert!(!feed.is_pending());
    assert!(feed.can_load());
    assert_eq!(feed.window(), vec![0]);
}

#[test]
fn feed_after_one_load_cycle() {
    let mut feed = Feed::new();
    feed.on_loaded();
    assert_eq!(feed.len(), 21);
    assert_eq!(feed.backing(), &(0..=20).collect::<Vec<usize>>());
    assert_eq!(feed.current_index(), 0);
    assert_eq!(feed.window(), (0..15).collect::<Vec<usize>>());
}

#[test]
fn feed_window_follows_the_current_index() {
    let mut feed = Feed::new();
    feed.on_loaded();
    feed.on_intersection(12, &[true], 0);
    assert_eq!(feed.current_index(), 12);
    assert_eq!(feed.window(), (5..20).collect::<Vec<usize>>());
    feed.on_intersection(18, &[true], 10);
    assert_eq!(feed.current_index(), 18);
    assert_eq!(feed.window(), (11..21).collect::<Vec<usize>>());
}

#[test]
fn feed_length_after_n_load_cycles() {
    let mut feed = Feed::new();
    for n in 0..30 {
        assert_eq!(feed.len(), 1 + 20 * n);
        assert!(feed.can_load());
        feed.on_loaded();
    }
    assert!(feed.backing().iter().enumerate().all(|(i, row)| i == *row));
}

#[test]
fn report_that_is_no_entry_changes_nothing() {
    let mut feed = Feed::new();
    feed.on_loaded();
    feed.on_intersection(3, &[true], 0);
    assert_eq!(feed.on_intersection(20, &[], 5), None);
    assert_eq!(feed.on_intersection(20, &[false], 5), None);
    assert_eq!(feed.on_intersection(20, &[false, true], 5), None);
    assert_eq!(feed.current_index(), 3);
    assert_eq!(feed.on_timer(10_000), Action::Nothing);
}

#[test]
fn entry_far_from_the_end_only_moves_the_current_index() {
    let mut feed = Feed::new();
    feed.on_loaded();
    assert_eq!(feed.on_intersection(10, &[true], 0), None);
    assert_eq!(feed.current_index(), 10);
    assert_eq!(feed.on_timer(10_000), Action::Nothing);
    assert!(!feed.is_pending());
}

#[test]
fn entry_near_the_end_asks_for_a_timer() {
    let mut feed = Feed::new();
    feed.on_loaded();
    assert_eq!(feed.on_intersection(11, &[true], 1_000), Some(500));
    assert_eq!(feed.current_index(), 11);
    assert_eq!(feed.on_timer(1_499), Action::Wait(1));
    assert!(!feed.is_pending());
    assert_eq!(feed.on_timer(1_500), Action::Dispatch);
    assert!(feed.is_pending());
}

#[test]
fn entry_on_the_fresh_page_loads_the_first_batch() {
    let mut feed = Feed::new();
    assert_eq!(feed.on_intersection(0, &[true], 40), Some(500));
    assert_eq!(feed.on_timer(540), Action::Dispatch);
    assert!(feed.is_pending());
    feed.on_loaded();
    assert!(!feed.is_pending());
    assert_eq!(feed.len(), 21);
}

#[test]
fn current_index_is_the_last_one_reported() {
    let mut feed = Feed::new();
    feed.on_loaded();
    feed.on_intersection(9, &[true], 0);
    feed.on_intersection(4, &[true], 1);
    assert_eq!(feed.current_index(), 4);
    feed.on_intersection(5, &[true, false], 2);
    assert_eq!(feed.current_index(), 5);
}

#[test]
fn row_beyond_the_end_is_taken_as_it_comes() {
    let mut feed = Feed::new();
    assert_eq!(feed.on_intersection(30, &[true], 0), Some(500));
    assert_eq!(feed.current_index(), 30);
    assert_eq!(feed.window(), Vec::<usize>::new());
}

#[test]
fn call_while_a_load_is_pending_starts_no_second_load() {
    let mut feed = Feed::new();
    assert_eq!(feed.on_intersection(0, &[true], 0), Some(500));
    assert_eq!(feed.on_timer(500), Action::Dispatch);
    assert!(feed.is_pending());
    // The one call that is made while the load is in flight.
    assert_eq!(feed.on_intersection(0, &[true], 600), None);
    assert_eq!(feed.current_index(), 0);
    feed.on_loaded();
    assert!(!feed.is_pending());
    assert_eq!(feed.len(), 21);
    assert_eq!(feed.on_timer(1_100), Action::Nothing);
    assert_eq!(feed.on_timer(5_000), Action::Nothing);
    assert!(!feed.is_pending());
    assert_eq!(feed.len(), 21);
}

#[test]
fn call_while_a_load_is_pending_is_dropped_even_if_the_load_stays_pending() {
    let mut feed = Feed::new();
    feed.on_intersection(0, &[true], 0);
    assert_eq!(feed.on_timer(500), Action::Dispatch);
    assert_eq!(feed.on_intersection(0, &[true], 600), None);
    assert_eq!(feed.on_timer(1_100), Action::Nothing);
    assert_eq!(feed.on_timer(5_000), Action::Nothing);
    assert!(feed.is_pending());
    assert_eq!(feed.len(), 1);
}

#[test]
fn entry_while_a_load_is_pending_still_moves_the_current_index() {
    let mut feed = Feed::new();
    feed.on_loaded();
    feed.on_intersection(15, &[true], 0);
    assert_eq!(feed.on_timer(500), Action::Dispatch);
    assert_eq!(feed.on_intersection(19, &[true], 510), None);
    assert_eq!(feed.current_index(), 19);
    assert_eq!(feed.window(), (12..21).collect::<Vec<usize>>());
}

#[test]
fn call_after_the_load_has_come_back_counts_again() {
    let mut feed = Feed::new();
    feed.on_intersection(0, &[true], 0);
    assert_eq!(feed.on_timer(500), Action::Dispatch);
    assert_eq!(feed.on_intersection(0, &[true], 600), None);
    feed.on_loaded();
    assert_eq!(feed.on_intersection(15, &[true], 700), Some(500));
    assert_eq!(feed.on_timer(1_199), Action::Wait(1));
    assert_eq!(feed.on_timer(1_200), Action::Dispatch);
    feed.on_loaded();
    assert_eq!(feed.len(), 41);
}

#[test]
fn scrolling_down_loads_batch_after_batch() {
    let mut feed = Feed::new();
    let mut now = 0;
    let mut loads = 0;
    for row in 0..100 {
        now += 1_000;
        assert!(row < feed.len());
        if feed.on_intersection(row, &[true], now).is_some() {
            now += 500;
            assert_eq!(feed.on_timer(now), Action::Dispatch);
            feed.on_loaded();
            loads += 1;
        }
        assert_eq!(feed.current_index(), row);
        assert!(feed.window().contains(&row));
        assert!(feed.len() - row > 10);
    }
    assert_eq!(feed.len(), 1 + 20 * loads);
    assert_eq!(feed.len(), 121);
}
