use csv_tools::progress::ProgressTracker;

#[test]
fn tracker_starts_empty() {
    let t = ProgressTracker::new(10);
    assert_eq!(t.total_items(), 10);
    assert_eq!(t.current_item(), 0);
}

#[test]
fn tracker_redraws_every_interval() {
    let mut t = ProgressTracker::new(100);
    assert!(!t.update_at(5, 100));
    assert_eq!(t.current_item(), 5);
    assert!(t.update_at(6, 500));
    assert!(!t.update_at(7, 999));
    assert!(t.update_at(8, 1000));
    assert!(!t.update_at(9, 10));
    assert_eq!(t.current_item(), 9);
}

#[test]
fn tracker_update_and_force_keep_counts() {
    let mut t = ProgressTracker::new(3);
    t.update(2);
    assert_eq!(t.current_item(), 2);
    t.force_update();
    assert_eq!(t.current_item(), 2);
    assert_eq!(t.total_items(), 3);
    assert!(t.elapsed_ms() < 60_000);
}

#[test]
fn tracker_filled_cells() {
    let mut t = ProgressTracker::new(10);
    assert_eq!(t.filled_cells(40), 0);
    t.update_at(5, 0);
    assert_eq!(t.filled_cells(40), 20);
    t.update_at(3, 0);
    assert_eq!(t.filled_cells(40), 12);
    t.update_at(15, 0);
    assert_eq!(t.filled_cells(40), 40);
    let empty = ProgressTracker::new(0);
    assert_eq!(empty.filled_cells(40), 0);
}

#[test]
fn tracker_force_update_never_goes_back() {
    let mut t = ProgressTracker::new(5);
    assert!(t.update_at(1, 700));
    t.force_update_at(300);
    assert!(!t.update_at(2, 1100));
    t.force_update_at(900);
    assert!(!t.update_at(3, 1300));
    assert!(t.update_at(4, 1400));
}
