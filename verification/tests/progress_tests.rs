use cargo_cleaner::notify_rw_lock::NotifyRwLock;
use cargo_cleaner::progress::note_one_done;
use cargo_cleaner::progress::{delete_progress_text, pad6, progress_text, to_decimal};
use cargo_cleaner::Progress;
use std::sync::mpsc::sync_channel;

#[test]
fn scan_progress_starts_with_the_root_counted() {
    let p = Progress::new_scan();
    assert_eq!(p.total, 1);
    assert_eq!(p.scanned, 0);
    assert!(!p.is_finished());
}

#[test]
fn delete_progress_starts_at_the_selection_size() {
    let p = Progress::new_delete(3);
    assert_eq!(p.total, 3);
    assert_eq!(p.scanned, 0);
}

#[test]
fn counters_are_monotone_over_a_history() {
    let mut p = Progress::new_scan();
    let steps = [true, false, true, false, false];
    for &discover in steps.iter() {
        let before = (p.total, p.scanned);
        p = if discover { p.count_discovered() } else { p.complete_one() };
        assert!(p.total >= before.0);
        assert!(p.scanned >= before.1);
        assert!(p.scanned <= p.total);
    }
    assert_eq!(p.total, 3);
    assert_eq!(p.scanned, 3);
    assert!(p.is_finished());
}

#[test]
fn count_discovered_saturates_at_the_maximum() {
    let p = Progress { total: usize::MAX, scanned: 0 };
    let q = p.count_discovered();
    assert_eq!(q.total, usize::MAX);
    assert_eq!(q.scanned, 0);
}

#[test]
fn complete_one_never_passes_total() {
    let p = Progress { total: 2, scanned: 2 };
    let q = p.complete_one();
    assert_eq!(q.scanned, 2);
    assert_eq!(q.total, 2);
}

#[test]
fn percent_is_the_truncated_ratio() {
    assert_eq!(Progress { total: 0, scanned: 0 }.percent(), 0);
    assert_eq!(Progress { total: 4, scanned: 1 }.percent(), 25);
    assert_eq!(Progress { total: 3, scanned: 1 }.percent(), 33);
    assert_eq!(Progress { total: 3, scanned: 2 }.percent(), 66);
    assert_eq!(Progress { total: 5, scanned: 5 }.percent(), 100);
}

#[test]
fn decimal_rendering_is_exact() {
    assert_eq!(to_decimal(0).as_str(), "0");
    assert_eq!(to_decimal(9).as_str(), "9");
    assert_eq!(to_decimal(10).as_str(), "10");
    assert_eq!(to_decimal(305).as_str(), "305");
    assert_eq!(to_decimal(1_000_000).as_str(), "1000000");
}

#[test]
fn padding_right_aligns_to_six_columns() {
    assert_eq!(pad6(to_decimal(5)).as_str(), "     5");
    assert_eq!(pad6(to_decimal(123456)).as_str(), "123456");
    assert_eq!(pad6(to_decimal(1234567)).as_str(), "1234567");
}

#[test]
fn progress_text_matches_the_rendered_format() {
    let p = Progress { total: 10, scanned: 5 };
    assert_eq!(progress_text(&p).as_str(), "Scanning      5 /     10");
    let done = Progress { total: 10, scanned: 10 };
    assert_eq!(progress_text(&done).as_str(), "Finished");
}

#[test]
fn delete_progress_text_matches_the_rendered_format() {
    let p = Progress { total: 3, scanned: 1 };
    assert_eq!(
        delete_progress_text(&p, true).as_str(),
        "Deleting      1 /      3 (dry-run)"
    );
    assert_eq!(delete_progress_text(&p, false).as_str(), "Deleting      1 /      3 ");
    let done = Progress { total: 3, scanned: 3 };
    assert_eq!(delete_progress_text(&done, true).as_str(), "Finished Please Push 'd'");
}

#[test]
fn note_one_done_increments_under_the_lock_and_notifies() {
    let (tx, rx) = sync_channel(1);
    let lock = cargo_cleaner::scan::scan_progress(tx);

    note_one_done(&lock);

    let reader = lock.read();
    assert_eq!(reader.borrow().scanned, 1);
    assert_eq!(reader.borrow().total, 1);
    reader.release();
    assert!(rx.try_recv().is_ok());
}

#[test]
fn progress_can_sit_behind_a_plain_lock() {
    let (tx, _rx) = sync_channel(1);
    let lock: NotifyRwLock<Progress> = NotifyRwLock::new(tx, Progress { total: 2, scanned: 0 });
    let (p, guard) = lock.write();
    guard.release(p.complete_one());
    let reader = lock.read();
    assert_eq!(reader.borrow().scanned, 1);
    reader.release();
}