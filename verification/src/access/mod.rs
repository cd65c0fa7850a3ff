//! Access control: arbitration between readers and writers of a cell.
//!
//! A controller admits readers and writers and hands each a scoped permit;
//! giving the permit back is the phase bookkeeping. Two controllers exist:
//! a baseline that models a reader-writer lock, and the phased variant that
//! batches writers into bounded write lines and grants pending readers a
//! grace quota at the start of every write phase.

pub mod cas;
pub mod lock;

use vstd::prelude::*;

verus! {

/// A scoped admission permit. Types implementing this are handed out by a
/// controller and must be given back to it to end the admission.
pub trait AccessGuard {

}

/// A controller that admits readers and writers of one cell.
///
/// Admission is modelled in alternating steps: an acquire hands out a
/// permit, and the matching release hands it back. The controller starts
/// idle, and every acquire/release pair returns it to idle; the
/// preconditions say when an acquire would succeed without waiting, which
/// is the only way a sequential caller may ask. The concurrent runtime
/// around the library retries acquisition with backoff where these
/// conditions do not yet hold.
pub trait AtomicAccessControl: Sized {
    type ReadGuard: AccessGuard;

    type WriteGuard: AccessGuard;

    /// The controller's internal invariant.
    spec fn wf(&self) -> bool;

    /// Nobody is admitted and nobody is waiting: an acquire of either kind
    /// succeeds at once.
    spec fn idle(&self) -> bool;

    /// Exactly one reader is admitted.
    spec fn reading(&self) -> bool;

    /// A write phase is under way.
    spec fn writing(&self) -> bool;

    /// The permit `g` is the one whose turn it is to write.
    spec fn write_guard_for(&self, g: &Self::WriteGuard) -> bool;

    /// Admits one reader, returning its permit.
    fn read(&mut self) -> (g: Self::ReadGuard)
        requires
            old(self).wf(),
            old(self).idle(),
        ensures
            final(self).wf(),
            final(self).reading(),
    ;

    /// The reader gives its permit back.
    fn end_read(&mut self, g: Self::ReadGuard)
        requires
            old(self).wf(),
            old(self).reading(),
        ensures
            final(self).wf(),
            final(self).idle(),
    ;

    /// Admits one writer, returning its permit.
    fn write(&mut self) -> (g: Self::WriteGuard)
        requires
            old(self).wf(),
            old(self).idle(),
        ensures
            final(self).wf(),
            final(self).writing(),
            final(self).write_guard_for(&g),
    ;

    /// The writer gives its permit back, ending the write phase when it was
    /// the phase's last writer.
    fn end_write(&mut self, g: Self::WriteGuard)
        requires
            old(self).wf(),
            old(self).writing(),
            old(self).write_guard_for(&g),
        ensures
            final(self).wf(),
            final(self).idle(),
    ;
}

} // verus!
