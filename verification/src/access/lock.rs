//! The reader-writer-lock controller: the correctness baseline.
//!
//! Multi-reader, single-writer exclusion, with the lock state held as plain
//! counters: how many readers are in, and whether a writer is. This is the
//! behavioural reference the phased controller must match; ordering and
//! fairness are left to whatever lock primitive the runtime supplies.

use vstd::prelude::*;

use crate::access::{AccessGuard, AtomicAccessControl};

verus! {

/// A reader's scoped permit on the lock controller.
pub struct LockReadGuard {

}

/// A writer's scoped permit on the lock controller.
pub struct LockWriteGuard {

}

impl AccessGuard for LockReadGuard {

}

impl AccessGuard for LockWriteGuard {

}

/// Reader-writer exclusion over unit: no state beyond the admissions
/// themselves.
pub struct LockAccessControl {
    readers: u16,
    writer: bool,
}

impl LockAccessControl {
    /// How many readers are admitted.
    pub closed spec fn readers(self) -> nat {
        self.readers as nat
    }

    /// A writer is admitted.
    pub closed spec fn writer(self) -> bool {
        self.writer
    }

    /// An unlocked controller.
    pub fn new() -> (r: Self)
        ensures
            r.wf(),
            r.idle(),
    {
        LockAccessControl { readers: 0, writer: false }
    }
}

impl Default for LockAccessControl {
    fn default() -> (r: Self)
        ensures
            r.wf(),
            r.idle(),
    {
        LockAccessControl { readers: 0, writer: false }
    }
}

impl AtomicAccessControl for LockAccessControl {
    type ReadGuard = LockReadGuard;

    type WriteGuard = LockWriteGuard;

    /// Readers and a writer are never in together.
    closed spec fn wf(&self) -> bool {
        self.writer ==> self.readers == 0
    }

    closed spec fn idle(&self) -> bool {
        self.readers == 0 && !self.writer
    }

    closed spec fn reading(&self) -> bool {
        self.readers == 1 && !self.writer
    }

    closed spec fn writing(&self) -> bool {
        self.writer
    }

    closed spec fn write_guard_for(&self, g: &LockWriteGuard) -> bool {
        true
    }

    fn read(&mut self) -> (g: LockReadGuard) {
        self.readers = 1;
        LockReadGuard {  }
    }

    fn end_read(&mut self, g: LockReadGuard) {
        self.readers = 0;
    }

    fn write(&mut self) -> (g: LockWriteGuard) {
        self.writer = true;
        LockWriteGuard {  }
    }

    fn end_write(&mut self, g: LockWriteGuard) {
        self.writer = false;
    }
}

} // verus!
