use cargo_cleaner::notify_rw_lock::NotifyRwLock;
use std::sync::mpsc::sync_channel;

/// Two writers' worth of pushes interleaved with reads: every update lands,
/// none is lost, and the final length is exactly the number of pushes.
#[test]
fn add_list() {
    let (tx, _rx) = sync_channel(1000);
    let waiter_list: NotifyRwLock<Vec<i32>> = NotifyRwLock::new(tx, Vec::new());

    for i in 0..1000 {
        let (mut v, guard) = waiter_list.write();
        v.push(i);
        guard.release(v);

        let (mut v, guard) = waiter_list.write();
        v.push(i);
        guard.release(v);

        let reader = waiter_list.read();
        let _ = reader.borrow().len();
        reader.release();
    }

    let reader = waiter_list.read();
    assert_eq!(reader.borrow().len(), 2_000);
    reader.release();
}

#[test]
fn exclusive_release_fires_one_notification() {
    let (tx, rx) = sync_channel(1);
    let lock = NotifyRwLock::new(tx, 0u64);

    let (v, guard) = lock.write();
    guard.release(v + 1);

    assert!(rx.try_recv().is_ok());
    assert!(rx.try_recv().is_err());
}

#[test]
fn saturated_channel_drops_excess_without_error() {
    let (tx, rx) = sync_channel(1);
    let lock = NotifyRwLock::new(tx, 0u64);

    let (v, guard) = lock.write();
    guard.release(v + 1);
    let (v, guard) = lock.write();
    guard.release(v + 1);
    let (v, guard) = lock.write();
    guard.release(v + 1);

    assert!(rx.try_recv().is_ok());
    assert!(rx.try_recv().is_err());

    let (v, guard) = lock.write();
    guard.release(v + 1);
    assert!(rx.try_recv().is_ok());

    let reader = lock.read();
    assert_eq!(*reader.borrow(), 4);
    reader.release();
}

#[test]
fn shared_release_sends_no_notification() {
    let (tx, rx) = sync_channel(1);
    let lock = NotifyRwLock::new(tx, 7u64);

    let reader = lock.read();
    assert_eq!(*reader.borrow(), 7);
    reader.release();

    assert!(rx.try_recv().is_err());
}

#[test]
fn concurrent_readers_see_one_value() {
    let (tx, _rx) = sync_channel(1);
    let lock = NotifyRwLock::new(tx, 42u64);

    let r1 = lock.read();
    let r2 = lock.read();
    assert_eq!(*r1.borrow(), *r2.borrow());
    r1.release();
    r2.release();
}
