//! The exponential-backoff spin helper used by contending admission loops.
//!
//! The actual pausing (spinning briefly, or yielding the thread once the
//! spin budget has grown) is done by `crossbeam_utils::Backoff`. This module
//! mirrors that helper's step counter in verified state, so that callers get
//! a proved account of when backing off is complete and the thread should be
//! parked instead.

use vstd::prelude::*;

verus! {

/// A snooze caps its step at one past this bound; past it, backing off is
/// complete and callers are advised to block instead of spin.
pub const YIELD_LIMIT: u32 = 10;

/// Declares `crossbeam_utils::Backoff`, the spin helper this module wraps,
/// so that it can be held in a field. Its own step state is opaque here.
#[verifier::external_type_specification]
#[verifier::external_body]
pub struct ExBackoff(crossbeam_utils::Backoff);

/// Relies on `crossbeam_utils::Backoff::new`: a fresh helper whose spin
/// budget starts at the shortest pause.
pub assume_specification[ crossbeam_utils::Backoff::new ]() -> crossbeam_utils::Backoff;

/// Relies on `crossbeam_utils::Backoff::snooze`: pauses the current thread,
/// spinning for small budgets and yielding to the scheduler for larger ones.
/// Nothing is promised of the pause itself.
pub assume_specification[ crossbeam_utils::Backoff::snooze ](b: &crossbeam_utils::Backoff);

/// Exponential backoff with a verified step counter.
///
/// Each `snooze` pauses the thread roughly twice as long as the one before
/// and advances the step, which stops one past `YIELD_LIMIT`;
/// `is_completed` reports whether that cap was reached, the hint that the
/// caller should park the thread on a blocking primitive if one is at hand.
pub struct CustomBackoff {
    raw: crossbeam_utils::Backoff,
    step: u32,
}

impl CustomBackoff {
    /// The number of snoozes taken so far, capped one past `YIELD_LIMIT`.
    pub closed spec fn step(self) -> nat {
        self.step as nat
    }

    pub fn new() -> (r: Self)
        ensures
            r.step() == 0,
    {
        CustomBackoff { raw: crossbeam_utils::Backoff::new(), step: 0 }
    }

    /// Backing off has completed: further snoozes only yield the thread, so
    /// blocking is advised where a blocking primitive is available.
    pub fn is_completed(&self) -> (r: bool)
        ensures
            r <==> self.step() > YIELD_LIMIT,
    {
        self.step > YIELD_LIMIT
    }

    /// Pauses the thread with the current budget and advances the step.
    pub fn snooze(&mut self)
        ensures
            final(self).step() == if old(self).step() > YIELD_LIMIT {
                old(self).step()
            } else {
                old(self).step() + 1
            },
    {
        self.raw.snooze();
        if self.step <= YIELD_LIMIT {
            self.step = self.step + 1;
        }
    }
}

} // verus!
