use intersection_observer_bug::watcher::{
    near_end, sees_entry, RowState, REFILL_MARGIN, VISIBLE_PERCENT,
};

#[test]
fn watcher_constants() {
    assert_eq!(VISIBLE_PERCENT, 83);
    assert_eq!(REFILL_MARGIN, 10);
    assert_eq!(f64::from(VISIBLE_PERCENT) / 100.0, 0.83);
}

#[test]
fn only_an_intersecting_first_entry_is_an_entry() {
    assert!(sees_entry(&[true]));
    assert!(sees_entry(&[true, false]));
    assert!(!sees_entry(&[]));
    assert!(!sees_entry(&[false]));
    assert!(!sees_entry(&[false, true]));
}

#[test]
fn row_state_follows_the_first_entry() {
    let state = RowState::NotObserved;
    assert_eq!(state.observe(&[]), RowState::NotObserved);
    assert_eq!(state.observe(&[false]), RowState::NotIntersecting);
    assert_eq!(state.observe(&[true]), RowState::Intersecting);
    assert_eq!(state.observe(&[false, true]), RowState::NotIntersecting);
    assert_eq!(RowState::NotIntersecting.observe(&[true, false]), RowState::Intersecting);
    assert_eq!(RowState::Intersecting.observe(&[false]), RowState::NotIntersecting);
    assert_eq!(RowState::Intersecting.observe(&[true]), RowState::Intersecting);
    assert_eq!(RowState::Intersecting.observe(&[]), RowState::Intersecting);
    assert_eq!(RowState::NotIntersecting.observe(&[]), RowState::NotIntersecting);
}

#[test]
fn near_end_when_at_most_ten_rows_are_left() {
    assert!(!near_end(21, 0));
    assert!(!near_end(21, 10));
    assert!(near_end(21, 11));
    assert!(near_end(21, 20));
    assert!(near_end(1, 0));
    assert!(near_end(10, 0));
    assert!(!near_end(11, 0));
}

#[test]
fn row_beyond_the_end_is_near_the_end() {
    assert!(near_end(21, 21));
    assert!(near_end(21, 500));
    assert!(near_end(0, 0));
    assert!(near_end(0, usize::MAX));
    assert!(!near_end(usize::MAX, 0));
}
