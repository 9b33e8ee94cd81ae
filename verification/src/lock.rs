//! A minimal mutual-exclusion primitive: an atomic flag with spin-wait
//! acquisition.
//!
//! The flag is opaque here, so these contracts state nothing about
//! exclusion; the store's partitions are guarded by the verified lock in
//! vstd instead. This primitive stands on its own: a busy-wait lock with
//! a relaxed compare-and-set attempt, an acquire fence after success,
//! and a release store. A thread that calls `lock` twice without
//! `unlock` deadlocks itself; that is a documented constraint, not
//! defended against.

use vstd::prelude::*;

use core::sync::atomic::{AtomicBool, Ordering};

verus! {

/// A mutual-exclusion primitive based on a spinning atomic flag.
pub struct Mutex {
    flag: AtomicBool,
}

/// Relies on std's `AtomicBool::compare_exchange_weak` and the acquire
/// fence. The busy-wait ends only when another thread stores `false`, so
/// no termination bound exists for it and the whole wait stands outside
/// the verified code.
#[verifier::external_body]
fn spin_acquire(flag: &AtomicBool) {
    while flag.compare_exchange_weak(false, true, Ordering::Relaxed, Ordering::Relaxed).is_err() {
    }
    core::sync::atomic::fence(Ordering::Acquire);
}

impl Mutex {
    /// A fresh, unowned lock.
    pub fn new() -> Mutex {
        Mutex { flag: AtomicBool::new(false) }
    }

    /// Spins until this call owns the lock: repeated relaxed
    /// compare-and-set attempts, then an acquire fence that
    /// synchronizes with the release store in `unlock`.
    pub fn lock(&self) {
        spin_acquire(&self.flag);
    }

    /// Releases the lock, publishing the owner's writes to the next
    /// acquirer.
    pub fn unlock(&self) {
        self.flag.store(false, Ordering::Release);
    }
}

} // verus!
