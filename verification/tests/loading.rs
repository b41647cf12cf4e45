use spec_assets::loading::{LoadState, LoadingHandles, PendingStatus, SpecLoadingHandles};

#[test]
fn new_tracker_is_empty_and_not_settled() {
    let tracker = LoadingHandles::new();
    assert!(tracker.pending.is_empty());
    assert!(tracker.loaded.is_empty());
    assert!(tracker.failed.is_empty());
    assert!(!tracker.settled());
    assert_eq!(tracker.status(), PendingStatus { still_pending: false, any_failed: false });
    assert!(SpecLoadingHandles::new().handles.is_empty());
}

#[test]
fn track_appends_behind_the_pending_items() {
    let mut tracker = LoadingHandles::new();
    assert!(tracker.track(&vec![3, 1]));
    assert!(tracker.track(&Vec::new()));
    assert!(tracker.track(&vec![2]));
    assert_eq!(tracker.pending, vec![3, 1, 2]);
    assert!(tracker.loaded.is_empty());
    assert!(tracker.failed.is_empty());
    assert!(!tracker.settled());
    assert!(tracker.status().still_pending);
}

#[test]
fn poll_moves_items_that_reached_an_end() {
    let mut tracker = LoadingHandles::new();
    assert!(tracker.track(&vec![10, 11, 12, 13, 14]));
    let status = tracker.poll(&vec![
        LoadState::Loaded,
        LoadState::Loading,
        LoadState::Failed,
        LoadState::Loading,
        LoadState::Loaded,
    ]);
    assert_eq!(status, PendingStatus { still_pending: true, any_failed: true });
    assert_eq!(tracker.pending, vec![11, 13]);
    assert_eq!(tracker.loaded, vec![10, 14]);
    assert_eq!(tracker.failed, vec![12]);
    assert!(!tracker.settled());
    let status = tracker.poll(&vec![LoadState::Failed, LoadState::Loaded]);
    assert_eq!(status, PendingStatus { still_pending: false, any_failed: true });
    assert!(tracker.pending.is_empty());
    assert_eq!(tracker.loaded, vec![10, 14, 13]);
    assert_eq!(tracker.failed, vec![12, 11]);
    assert!(tracker.settled());
}

#[test]
fn settled_tracker_takes_no_more_items() {
    let mut tracker = LoadingHandles::new();
    assert!(tracker.track(&vec![1]));
    assert!(tracker.track(&vec![2]));
    tracker.poll(&vec![LoadState::Loaded, LoadState::Failed]);
    assert!(tracker.settled());
    assert!(!tracker.track(&vec![3]));
    assert!(tracker.pending.is_empty());
    assert_eq!(tracker.loaded, vec![1]);
    assert_eq!(tracker.failed, vec![2]);
    let status = tracker.poll(&vec![LoadState::Loading]);
    assert_eq!(status, PendingStatus { still_pending: false, any_failed: true });
    assert!(tracker.settled());
}

#[test]
fn poll_takes_unreported_items_as_loading() {
    let mut tracker = LoadingHandles::new();
    assert!(tracker.track(&vec![1, 2]));
    let status = tracker.poll(&Vec::new());
    assert_eq!(status, PendingStatus { still_pending: true, any_failed: false });
    assert_eq!(tracker.pending, vec![1, 2]);
    let status = tracker.poll(&vec![LoadState::Loaded]);
    assert!(status.still_pending);
    assert_eq!(tracker.pending, vec![2]);
    assert_eq!(tracker.loaded, vec![1]);
}

#[test]
fn poll_of_an_empty_tracker_settles_nothing() {
    let mut tracker = LoadingHandles::new();
    let status = tracker.poll(&vec![LoadState::Loaded]);
    assert_eq!(status, PendingStatus { still_pending: false, any_failed: false });
    assert!(!tracker.settled());
    assert!(tracker.loaded.is_empty());
}
