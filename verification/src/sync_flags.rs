//! The shared shutdown flag.
//!
//! One boolean behind an exclusive lock, shared between a single setter (the
//! control thread) and any number of reader handles (the workers and the
//! compositor).  Reads and writes are serialized by the lock, so no torn
//! value can be observed; a reader polls, and sees a write eventually, with
//! no ordering guarantee.  A poisoned lock — a peer crashed while holding it
//! — makes the flag unusable and surfaces as the `Err` case, which callers
//! treat as fatal.
//!
//! The flag's value lives behind `std::sync::Mutex` and is shared between
//! threads, so nothing relates one read to the next: the wrappers here are
//! trusted declarations whose contracts promise nothing about the value that
//! comes back.

use vstd::prelude::*;

verus! {

use std::sync::Arc;
use std::sync::Mutex;

#[verifier::external_type_specification]
#[verifier::external_body]
#[verifier::reject_recursive_types(T)]
pub struct ExMutex<T: ?Sized>(Mutex<T>);

/// The writing half of the flag, held by the control thread.
pub struct SyncFlagSender {
    inner: Arc<Mutex<bool>>,
}

impl SyncFlagSender {
    /// Assigns a new value to the shared flag, visible to every paired
    /// receiver.  `Err` means the lock was poisoned by a crashed peer.
    ///
    /// Relies on `std::sync::Mutex::lock`: it returns exclusive access to
    /// the shared boolean, or `Err` when the lock is poisoned, and the write
    /// through the guard stores the new value before the lock is released.
    #[verifier::external_body]
    pub fn set(&mut self, state: bool) -> Result<(), ()> {
        if let Ok(mut v) = self.inner.lock() {
            *v = state;
            Ok(())
        } else {
            Err(())
        }
    }
}

/// The reading half of the flag; every worker holds a clone.
#[derive(Clone)]
pub struct SyncFlagReceiver {
    inner: Arc<Mutex<bool>>,
}

impl SyncFlagReceiver {
    /// Reads the current value of the shared flag.  `Err` means the lock
    /// was poisoned by a crashed peer.
    ///
    /// Relies on `std::sync::Mutex::lock`: it returns exclusive access to
    /// the shared boolean, or `Err` when the lock is poisoned.  Another
    /// thread may set the flag at any moment, so nothing can be promised of
    /// the value read.
    #[verifier::external_body]
    pub fn get(&self) -> Result<bool, ()> {
        if let Ok(v) = self.inner.lock() {
            Ok(*v)
        } else {
            Err(())
        }
    }
}

/// Creates a flag holding `initial_state`, returning its single writing
/// half and the first reading half.
///
/// Relies on `std::sync::Mutex::new` and `std::sync::Arc::new`/`clone`: both
/// halves hold the same shared boolean, initially `initial_state`.
#[verifier::external_body]
pub fn new_syncflag(initial_state: bool) -> (SyncFlagSender, SyncFlagReceiver) {
    let state = Arc::new(Mutex::new(initial_state));
    let tx = SyncFlagSender { inner: state.clone() };
    let rx = SyncFlagReceiver { inner: state.clone() };

    (tx, rx)
}

} // verus!
