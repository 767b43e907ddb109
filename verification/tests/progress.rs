use cliant::progress::{DefaultProgressTracker, NoOpProgressTracker, ProgressInfo, ProgressTracker};

#[test]
fn test_progress_tracker() {
    let mut tracker = DefaultProgressTracker::new(10000, 4);

    tracker.update(0, 1000);
    let progress = tracker.total_progress();
    assert_eq!(progress.downloaded_bytes, 1000);
    assert_eq!(progress.completed_parts, 0);

    tracker.complete_part(0, 2500);
    let progress = tracker.total_progress();
    assert_eq!(progress.downloaded_bytes, 2500);
    assert_eq!(progress.completed_parts, 1);

    tracker.complete_part(1, 2500);
    tracker.complete_part(2, 2500);
    tracker.complete_part(3, 2500);

    let progress = tracker.total_progress();
    assert_eq!(progress.downloaded_bytes, 10000);
    assert_eq!(progress.completed_parts, 4);
    assert_eq!(progress.total_bytes, 10000);
    assert_eq!(progress.total_parts, 4);
    let percentage = (progress.downloaded_bytes as f64 / progress.total_bytes as f64) * 100.0;
    assert_eq!(percentage, 100.0);
}

#[test]
fn test_progress_percentage() {
    let mut tracker = DefaultProgressTracker::new(1000, 2);
    tracker.update(0, 500);
    let progress = tracker.total_progress();
    let percentage = (progress.downloaded_bytes as f64 / progress.total_bytes as f64) * 100.0;
    assert_eq!(percentage, 50.0);
}

#[test]
fn downloaded_bytes_never_go_down() {
    let mut tracker = DefaultProgressTracker::new(1 << 20, 8);
    let mut last = 0;
    let mut x: usize = 3;
    for _ in 0..500 {
        x = (x * 1103 + 12345) % 65_536;
        let part = x % 8;
        match x % 4 {
            0 => tracker.complete_part(part, x),
            1 => tracker.fail_part(part, "broken".to_string()),
            _ => tracker.update(part, x),
        }
        let now = tracker.total_progress().downloaded_bytes;
        assert!(now >= last);
        last = now;
    }
}

#[test]
fn a_late_update_with_fewer_bytes_changes_nothing() {
    let mut tracker = DefaultProgressTracker::new(100, 2);
    tracker.update(1, 40);
    tracker.update(1, 10);
    assert_eq!(tracker.total_progress().downloaded_bytes, 40);
    tracker.update(0, 5);
    assert_eq!(tracker.total_progress().downloaded_bytes, 45);
}

#[test]
fn completing_a_part_twice_counts_once() {
    let mut tracker = DefaultProgressTracker::new(100, 2);
    tracker.complete_part(0, 50);
    tracker.complete_part(0, 50);
    let progress = tracker.total_progress();
    assert_eq!(progress.completed_parts, 1);
    assert_eq!(progress.downloaded_bytes, 50);
    tracker.finish();
    assert_eq!(tracker.total_progress(), progress);
}

#[test]
fn the_total_is_held_at_the_largest_count() {
    let mut tracker = DefaultProgressTracker::new(0, 0);
    tracker.update(0, usize::MAX);
    tracker.update(1, 5);
    assert_eq!(tracker.total_progress().downloaded_bytes, usize::MAX);
}

#[test]
fn the_no_op_tracker_reports_nothing() {
    let mut tracker = NoOpProgressTracker;
    tracker.update(0, 10);
    tracker.complete_part(0, 10);
    tracker.fail_part(1, "x".to_string());
    tracker.finish();
    assert_eq!(
        tracker.total_progress(),
        ProgressInfo { total_bytes: 0, downloaded_bytes: 0, completed_parts: 0, total_parts: 0 }
    );
}
