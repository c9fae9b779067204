//! A reader-writer lock that fires a best-effort change notification on
//! every release of exclusive access.
//!
//! Mutual exclusion — no two holders of exclusive access at once, and no
//! shared holder concurrent with an exclusive one — is provided by
//! [`vstd::rwlock::RwLock`], whose implementation is verified in vstd down to
//! its atomic operations; this module adds the notification side channel and
//! an optional invariant on the stored value, established at construction and
//! reproved at every exclusive release.
//!
//! The notification is a single token on a bounded channel: if one is already
//! pending and unconsumed, the new one is silently dropped. At least one
//! pending notification after a write is the guarantee, not exactly one per
//! write.

use std::sync::mpsc::SyncSender;
use vstd::prelude::*;
use vstd::rwlock::{ReadHandle, RwLock, WriteHandle};

verus! {

/// The sending end of the observer's notification channel.
pub type NotifySender = SyncSender<()>;

/// Declares `std::sync::mpsc::SyncSender` so it can stand in fields and
/// signatures; the value is opaque, and only [`try_notify`] touches it.
#[verifier::external_type_specification]
#[verifier::external_body]
#[verifier::reject_recursive_types(T)]
pub struct ExSyncSender<T>(SyncSender<T>);

/// Relies on `std::sync::mpsc::SyncSender::try_send`: it never blocks and
/// never panics; on a full or disconnected channel it returns an error, which
/// callers here discard — the notification is best-effort by design.
#[verifier::external_body]
fn try_notify(tx: &SyncSender<()>) -> (delivered: bool) {
    tx.try_send(()).is_ok()
}

/// A value of type `T` behind reader-writer mutual exclusion, with a
/// best-effort notification fired at every exclusive release.
#[verifier::reject_recursive_types(T)]
pub struct NotifyRwLock<T> {
    lock: RwLock<T, spec_fn(T) -> bool>,
    notify_tx: SyncSender<()>,
}

/// Scoped shared access to the value in a [`NotifyRwLock`].
#[verifier::reject_recursive_types(T)]
pub struct ReadGuard<'a, T> {
    handle: ReadHandle<'a, T, spec_fn(T) -> bool>,
}

/// Scoped exclusive access to the value in a [`NotifyRwLock`]. Releasing it
/// stores the new value and fires one notification attempt.
#[verifier::reject_recursive_types(T)]
pub struct WriteGuard<'a, T> {
    handle: WriteHandle<'a, T, spec_fn(T) -> bool>,
    notify_tx: &'a SyncSender<()>,
}

impl<T> NotifyRwLock<T> {
    /// Which values may be stored in this lock; fixed at construction.
    pub closed spec fn inv(&self, v: T) -> bool {
        self.lock.inv(v)
    }

    /// A lock with no invariant on the stored value.
    pub fn new(notify_tx: NotifySender, value: T) -> (s: Self)
        ensures
            forall|v: T| s.inv(v),
    {
        NotifyRwLock { lock: RwLock::new(value, Ghost(|v: T| true)), notify_tx }
    }

    /// A lock whose stored value always satisfies `p`: `p` must hold of the
    /// initial value and is required again at every exclusive release, so
    /// every shared access may assume it.
    pub fn new_with_inv(notify_tx: NotifySender, value: T, Ghost(p): Ghost<spec_fn(T) -> bool>) -> (s:
        Self)
        requires
            p(value),
        ensures
            forall|v: T| s.inv(v) == p(v),
    {
        NotifyRwLock { lock: RwLock::new(value, Ghost(p)), notify_tx }
    }

    /// Acquire shared access. Any number of shared holders may coexist;
    /// none coexists with an exclusive holder.
    pub fn read(&self) -> (guard: ReadGuard<'_, T>)
        ensures
            guard.from(*self),
            self.inv(guard@),
    {
        let handle = self.lock.acquire_read();
        ReadGuard { handle }
    }

    /// Acquire exclusive access: the current value moves out, and the guard
    /// must be released with the value to store.
    pub fn write(&self) -> (ret: (T, WriteGuard<'_, T>))
        ensures
            self.inv(ret.0),
            forall|v: T| ret.1.inv(v) == self.inv(v),
    {
        let (val, handle) = self.lock.acquire_write();
        (val, WriteGuard { handle, notify_tx: &self.notify_tx })
    }
}

impl<'a, T> ReadGuard<'a, T> {
    /// The value this guard grants access to.
    pub closed spec fn view(&self) -> T {
        self.handle.view()
    }

    /// Whether this guard came from `lock`.
    pub closed spec fn from(&self, lock: NotifyRwLock<T>) -> bool {
        self.handle.rwlock() == lock.lock
    }

    /// Shared reference to the protected value.
    pub fn borrow(&self) -> (val: &T)
        ensures
            *val == self@,
    {
        self.handle.borrow()
    }

    /// Give shared access back.
    pub fn release(self) {
        self.handle.release_read();
    }

    /// Two concurrently held shared guards of one lock see the same value:
    /// no exclusive holder can have changed it between them.
    pub fn agrees(&self, other: &ReadGuard<'a, T>, Ghost(lock): Ghost<NotifyRwLock<T>>)
        requires
            self.from(lock),
            other.from(lock),
        ensures
            self@ == other@,
    {
        proof {
            ReadHandle::lemma_readers_match(&self.handle, &other.handle);
        }
    }
}

impl<'a, T> WriteGuard<'a, T> {
    /// Which values this guard may store on release: exactly the invariant
    /// of the lock it came from.
    pub closed spec fn inv(&self, v: T) -> bool {
        self.handle.rwlock().inv(v)
    }

    /// Store `new_val`, give exclusive access back, and attempt exactly one
    /// notification send; a saturated channel drops it silently.
    pub fn release(self, new_val: T)
        requires
            self.inv(new_val),
    {
        let WriteGuard { handle, notify_tx } = self;
        handle.release_write(new_val);
        let _ = try_notify(notify_tx);
    }
}

/// One serialized access to a counter protected by the lock: exclusive
/// accesses increment it, shared accesses leave it unchanged.
pub enum CounterAccess {
    Increment,
    Read,
}

/// The counter value after a serialized history of accesses.
pub open spec fn counter_after(init: nat, ops: Seq<CounterAccess>) -> nat
    decreases ops.len(),
{
    if ops.len() == 0 {
        init
    } else {
        counter_after(init, ops.drop_last()) + if ops.last() is Increment {
            1nat
        } else {
            0nat
        }
    }
}

/// How many accesses in a history are increments.
pub open spec fn increment_count(ops: Seq<CounterAccess>) -> nat
    decreases ops.len(),
{
    if ops.len() == 0 {
        0nat
    } else {
        increment_count(ops.drop_last()) + if ops.last() is Increment {
            1nat
        } else {
            0nat
        }
    }
}

/// No lost updates: mutual exclusion serializes all accesses to the
/// protected value into one history, and in any such history every increment
/// lands and no read disturbs the counter — the final value is exactly the
/// initial value plus the number of increments. With `n` writers doing `m`
/// increments each, interleaved with any number of reads, that is
/// `init + n * m`.
pub proof fn lemma_no_lost_updates(init: nat, ops: Seq<CounterAccess>)
    ensures
        counter_after(init, ops) == init + increment_count(ops),
    decreases ops.len(),
{
    if ops.len() > 0 {
        lemma_no_lost_updates(init, ops.drop_last());
    }
}

} // verus!
