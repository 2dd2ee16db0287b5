use vstd::prelude::*;
use vstd::rwlock::RwLock;
use vstd::rwlock::RwLockPredicate;

use crate::data::ProfileData;
use crate::registry::Registry;
use crate::registry::get_data;
use crate::registry::try_record_data;

verus! {

/// The lock around the shared registry needs no predicate of its own: every
/// `Registry` value is acceptable, its own invariant travels with it.
pub struct AnyRegistry {}

impl RwLockPredicate<Registry> for AnyRegistry {
    open spec fn inv(self, v: Registry) -> bool {
        true
    }
}

/// A registry that any number of threads may record into and snapshot.
///
/// All access goes through one reader-writer lock at the granularity of the
/// whole registry, so a merge is observed entirely or not at all, and a
/// snapshot reflects a state that existed at some instant during the call.
/// The critical sections are verified not to panic, so a holder never dies
/// with the lock and the guard cannot be poisoned.
pub struct SharedRegistry {
    lock: RwLock<Registry, AnyRegistry>,
}

impl SharedRegistry {
    /// A shared registry with no aggregates at all.
    pub fn new() -> SharedRegistry {
        SharedRegistry { lock: RwLock::new(Registry::new(), Ghost(AnyRegistry {})) }
    }

    /// Merges one sample under `name`, holding the registry exclusively for
    /// the update, so total and count move together and no concurrent merge
    /// is lost. Returns `false`, recording nothing, exactly when the grown
    /// total or count would no longer fit its field.
    pub fn record(&self, name: &str, duration_nanos: u128) -> bool {
        let (mut registry, write_handle) = self.lock.acquire_write();
        let ok = try_record_data(&mut registry, name, duration_nanos);
        write_handle.release_write(registry);
        ok
    }

    /// A copy of every aggregate at some instant during the call, under
    /// distinct names, in non-decreasing order of total execution time.
    pub fn snapshot(&self) -> (result: Vec<(String, ProfileData)>)
        ensures
            forall|i: int, j: int| 0 <= i < j < result@.len() ==> result@[i].0@
                != result@[j].0@,
            forall|i: int, j: int| 0 <= i <= j < result@.len() ==> result@[i].1@.total
                <= result@[j].1@.total,
    {
        let read_handle = self.lock.acquire_read();
        let result = get_data(read_handle.borrow());
        read_handle.release_read();
        result
    }
}

} // verus!
