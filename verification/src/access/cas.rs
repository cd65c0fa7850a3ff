//! The phased controller: lock-free arbitration by compare-and-swap.
//!
//! Readers and writers coordinate through a handful of atomic words. The
//! word `read_flags` packs three counters: the low 16 bits count active
//! readers, the next 16 bits count readers that registered intent but are
//! not yet admitted, and the high 32 bits count the read slots granted to
//! pending readers at the start of a write phase. Every atomic step of the
//! protocol is a pure function from the old word to the new one; those
//! functions are verified here, and the concurrent runtime applies them
//! inside its compare-and-swap loops.
//!
//! A phase admits at most `max_write_line` writers back to back: the writer
//! that flips `is_writing` (the initiator) fixes the phase size from the
//! pending-writer count, takes the first admission itself and leaves the
//! rest as write slots for followers. The initiator also snapshots the
//! pending readers and installs that many read slots, the grace quota that
//! bounds writer-induced reader starvation: the initiator may not proceed
//! until every granted slot has been consumed by a reader admission and all
//! active readers have drained.

use vstd::prelude::*;

use crate::access::{AccessGuard, AtomicAccessControl};
use crate::sync::CustomBackoff;

verus! {

pub const ACTIVE_READERS_MASK: u64 = 0x0000_0000_0000_FFFF;

pub const READ_SLOTS_MASK: u64 = 0xFFFF_FFFF_0000_0000;

pub const PENDING_READERS_MASK: u64 = 0x0000_0000_FFFF_0000;

pub const NOT_ACTIVE_PENDING_READERS_MASK: u64 = !0x0000_0000_FFFF_FFFFu64;

pub const PENDING_READERS_SHIFT: u64 = 16;

pub const READ_SLOTS_SHIFT: u64 = 32;

/// The active-reader count packed into a read-flags word.
pub open spec fn active_readers_of(w: u64) -> nat {
    (w & ACTIVE_READERS_MASK) as nat
}

/// The pending-reader count packed into a read-flags word.
pub open spec fn pending_readers_of(w: u64) -> nat {
    ((w & PENDING_READERS_MASK) >> PENDING_READERS_SHIFT) as nat
}

/// The read-slot count packed into a read-flags word.
pub open spec fn read_slots_of(w: u64) -> nat {
    ((w & READ_SLOTS_MASK) >> READ_SLOTS_SHIFT) as nat
}

/// One reader registers intent: pending readers rise by one, nothing else
/// moves.
pub fn inc_pending_readers_word(w: u64) -> (r: u64)
    requires
        pending_readers_of(w) < 0xFFFF,
    ensures
        pending_readers_of(r) == pending_readers_of(w) + 1,
        active_readers_of(r) == active_readers_of(w),
        read_slots_of(r) == read_slots_of(w),
{
    let pending = (w & PENDING_READERS_MASK) >> PENDING_READERS_SHIFT;
    let r = (w & !PENDING_READERS_MASK) | ((pending + 1) << PENDING_READERS_SHIFT);
    proof {
        assert((r & PENDING_READERS_MASK) >> PENDING_READERS_SHIFT == ((w & PENDING_READERS_MASK)
            >> PENDING_READERS_SHIFT) + 1 && (r & ACTIVE_READERS_MASK) == (w & ACTIVE_READERS_MASK)
            && (r & READ_SLOTS_MASK) >> READ_SLOTS_SHIFT == (w & READ_SLOTS_MASK)
            >> READ_SLOTS_SHIFT) by (bit_vector)
            requires
                r == (w & !PENDING_READERS_MASK) | (((((w & PENDING_READERS_MASK)
                    >> PENDING_READERS_SHIFT) + 1) as u64) << PENDING_READERS_SHIFT),
                (w & PENDING_READERS_MASK) >> PENDING_READERS_SHIFT < 0xFFFF,
        ;
    }
    r
}

/// A reader moves from pending to active in one step, outside a write
/// phase: pending falls by one, active rises by one, the slots stay.
pub fn initialize_read_word(w: u64) -> (r: u64)
    requires
        pending_readers_of(w) >= 1,
        active_readers_of(w) < 0xFFFF,
    ensures
        pending_readers_of(r) == pending_readers_of(w) - 1,
        active_readers_of(r) == active_readers_of(w) + 1,
        read_slots_of(r) == read_slots_of(w),
{
    let pending = (w & PENDING_READERS_MASK) >> PENDING_READERS_SHIFT;
    let active = w & ACTIVE_READERS_MASK;
    let r = (w & NOT_ACTIVE_PENDING_READERS_MASK) | ((pending - 1) << PENDING_READERS_SHIFT) | (
    active + 1);
    proof {
        assert((r & PENDING_READERS_MASK) >> PENDING_READERS_SHIFT == ((w & PENDING_READERS_MASK)
            >> PENDING_READERS_SHIFT) - 1 && (r & ACTIVE_READERS_MASK) == (w & ACTIVE_READERS_MASK)
            + 1 && (r & READ_SLOTS_MASK) >> READ_SLOTS_SHIFT == (w & READ_SLOTS_MASK)
            >> READ_SLOTS_SHIFT) by (bit_vector)
            requires
                r == (w & NOT_ACTIVE_PENDING_READERS_MASK) | (((((w & PENDING_READERS_MASK)
                    >> PENDING_READERS_SHIFT) - 1) as u64) << PENDING_READERS_SHIFT) | (((w
                    & ACTIVE_READERS_MASK) + 1) as u64),
                (w & PENDING_READERS_MASK) >> PENDING_READERS_SHIFT >= 1,
                (w & ACTIVE_READERS_MASK) < 0xFFFF,
        ;
    }
    r
}

/// A pending reader tries to consume one grace slot during a write phase.
/// With no slot left the word is unchanged and the reader keeps waiting;
/// otherwise the slots and the pending count fall by one and the active
/// count rises by one.
pub fn try_reserve_read_slot_word(w: u64) -> (r: Option<u64>)
    requires
        read_slots_of(w) >= 1 ==> pending_readers_of(w) >= 1 && active_readers_of(w) < 0xFFFF,
    ensures
        r is Some <==> read_slots_of(w) >= 1,
        r is Some ==> {
            &&& read_slots_of(r->Some_0) == read_slots_of(w) - 1
            &&& pending_readers_of(r->Some_0) == pending_readers_of(w) - 1
            &&& active_readers_of(r->Some_0) == active_readers_of(w) + 1
        },
{
    let slots = (w & READ_SLOTS_MASK) >> READ_SLOTS_SHIFT;
    if slots == 0 {
        None
    } else {
        let pending = (w & PENDING_READERS_MASK) >> PENDING_READERS_SHIFT;
        let active = w & ACTIVE_READERS_MASK;
        let r = ((slots - 1) << READ_SLOTS_SHIFT) | ((pending - 1) << PENDING_READERS_SHIFT) | (
        active + 1);
        proof {
            assert((r & READ_SLOTS_MASK) >> READ_SLOTS_SHIFT == ((w & READ_SLOTS_MASK)
                >> READ_SLOTS_SHIFT) - 1 && (r & PENDING_READERS_MASK) >> PENDING_READERS_SHIFT == (
            (w & PENDING_READERS_MASK) >> PENDING_READERS_SHIFT) - 1 && (r & ACTIVE_READERS_MASK)
                == (w & ACTIVE_READERS_MASK) + 1) by (bit_vector)
                requires
                    r == (((((w & READ_SLOTS_MASK) >> READ_SLOTS_SHIFT) - 1) as u64) << READ_SLOTS_SHIFT) | (
                    ((((w & PENDING_READERS_MASK) >> PENDING_READERS_SHIFT) - 1) as u64)
                        << PENDING_READERS_SHIFT) | (((w & ACTIVE_READERS_MASK) + 1) as u64),
                    (w & READ_SLOTS_MASK) >> READ_SLOTS_SHIFT >= 1,
                    (w & PENDING_READERS_MASK) >> PENDING_READERS_SHIFT >= 1,
                    (w & ACTIVE_READERS_MASK) < 0xFFFF,
            ;
        }
        Some(r)
    }
}

/// An active reader that slipped in while a write phase was starting either
/// legitimises itself by consuming a grace slot (leaving pending and active
/// as they are), or, with no slot left, reverses its admission: back to
/// pending, active falls by one. Returns whether a slot was consumed.
pub fn try_reserve_read_slot_or_reset_word(w: u64) -> (r: (u64, bool))
    requires
        read_slots_of(w) == 0 ==> pending_readers_of(w) < 0xFFFF && active_readers_of(w) >= 1,
    ensures
        r.1 <==> read_slots_of(w) >= 1,
        r.1 ==> {
            &&& read_slots_of(r.0) == read_slots_of(w) - 1
            &&& pending_readers_of(r.0) == pending_readers_of(w)
            &&& active_readers_of(r.0) == active_readers_of(w)
        },
        !r.1 ==> {
            &&& read_slots_of(r.0) == 0
            &&& pending_readers_of(r.0) == pending_readers_of(w) + 1
            &&& active_readers_of(r.0) == active_readers_of(w) - 1
        },
{
    let slots = (w & READ_SLOTS_MASK) >> READ_SLOTS_SHIFT;
    if slots == 0 {
        let pending = (w & PENDING_READERS_MASK) >> PENDING_READERS_SHIFT;
        let active = w & ACTIVE_READERS_MASK;
        let r = (w & NOT_ACTIVE_PENDING_READERS_MASK) | ((pending + 1) << PENDING_READERS_SHIFT) | (
        active - 1);
        proof {
            assert((r & READ_SLOTS_MASK) >> READ_SLOTS_SHIFT == 0 && (r & PENDING_READERS_MASK)
                >> PENDING_READERS_SHIFT == ((w & PENDING_READERS_MASK) >> PENDING_READERS_SHIFT)
                + 1 && (r & ACTIVE_READERS_MASK) == (w & ACTIVE_READERS_MASK) - 1) by (bit_vector)
                requires
                    r == (w & NOT_ACTIVE_PENDING_READERS_MASK) | (((((w & PENDING_READERS_MASK)
                        >> PENDING_READERS_SHIFT) + 1) as u64) << PENDING_READERS_SHIFT) | ((((w
                        & ACTIVE_READERS_MASK) - 1)) as u64),
                    (w & READ_SLOTS_MASK) >> READ_SLOTS_SHIFT == 0,
                    (w & PENDING_READERS_MASK) >> PENDING_READERS_SHIFT < 0xFFFF,
                    (w & ACTIVE_READERS_MASK) >= 1,
            ;
        }
        (r, false)
    } else {
        let r = (w & !READ_SLOTS_MASK) | ((slots - 1) << READ_SLOTS_SHIFT);
        proof {
            assert((r & READ_SLOTS_MASK) >> READ_SLOTS_SHIFT == ((w & READ_SLOTS_MASK)
                >> READ_SLOTS_SHIFT) - 1 && (r & PENDING_READERS_MASK) >> PENDING_READERS_SHIFT == (
            w & PENDING_READERS_MASK) >> PENDING_READERS_SHIFT && (r & ACTIVE_READERS_MASK) == (w
                & ACTIVE_READERS_MASK)) by (bit_vector)
                requires
                    r == (w & !READ_SLOTS_MASK) | (((((w & READ_SLOTS_MASK) >> READ_SLOTS_SHIFT) - 1) as u64)
                        << READ_SLOTS_SHIFT),
                    (w & READ_SLOTS_MASK) >> READ_SLOTS_SHIFT >= 1,
            ;
        }
        (r, true)
    }
}

/// The initiator installs the grace quota: the read slots are set to
/// `slots_size`, the reader counts stay.
pub fn initialize_read_slots_word(w: u64, slots_size: u64) -> (r: u64)
    requires
        read_slots_of(w) == 0,
        slots_size <= 0xFFFF_FFFF,
    ensures
        read_slots_of(r) == slots_size,
        pending_readers_of(r) == pending_readers_of(w),
        active_readers_of(r) == active_readers_of(w),
{
    let r = w | (slots_size << READ_SLOTS_SHIFT);
    proof {
        assert((r & READ_SLOTS_MASK) >> READ_SLOTS_SHIFT == slots_size && (r
            & PENDING_READERS_MASK) >> PENDING_READERS_SHIFT == (w & PENDING_READERS_MASK)
            >> PENDING_READERS_SHIFT && (r & ACTIVE_READERS_MASK) == (w & ACTIVE_READERS_MASK))
            by (bit_vector)
            requires
                r == w | (slots_size << READ_SLOTS_SHIFT),
                (w & READ_SLOTS_MASK) >> READ_SLOTS_SHIFT == 0,
                slots_size <= 0xFFFF_FFFF,
        ;
    }
    r
}

/// An admitted reader leaves: active readers fall by one, nothing else
/// moves.
pub fn release_read_word(w: u64) -> (r: u64)
    requires
        active_readers_of(w) >= 1,
    ensures
        active_readers_of(r) == active_readers_of(w) - 1,
        pending_readers_of(r) == pending_readers_of(w),
        read_slots_of(r) == read_slots_of(w),
{
    let active = w & ACTIVE_READERS_MASK;
    let r = (w & !ACTIVE_READERS_MASK) | (active - 1);
    proof {
        assert((r & ACTIVE_READERS_MASK) == (w & ACTIVE_READERS_MASK) - 1 && (r
            & PENDING_READERS_MASK) >> PENDING_READERS_SHIFT == (w & PENDING_READERS_MASK)
            >> PENDING_READERS_SHIFT && (r & READ_SLOTS_MASK) >> READ_SLOTS_SHIFT == (w
            & READ_SLOTS_MASK) >> READ_SLOTS_SHIFT) by (bit_vector)
            requires
                r == (w & !ACTIVE_READERS_MASK) | (((w & ACTIVE_READERS_MASK) - 1) as u64),
                (w & ACTIVE_READERS_MASK) >= 1,
        ;
    }
    r
}

/// The size of a new write phase: every pending writer is admitted, up to
/// the configured write-line bound.
pub fn phase_size_for(pending_writers: u16, max_write_line: u16) -> (r: u16)
    ensures
        r == if pending_writers < max_write_line {
            pending_writers as nat
        } else {
            max_write_line as nat
        },
{
    if pending_writers < max_write_line {
        pending_writers
    } else {
        max_write_line
    }
}

/// The mathematical state of the phased controller: the three packed
/// reader counters, the writer-side words, the configuration, and the
/// phase bookkeeping that the proofs track.
pub struct CASControlView {
    pub active_readers: nat,
    pub pending_readers: nat,
    pub read_slots: nat,
    pub write_slots: nat,
    pub next_writer_id: nat,
    pub pending_writers: nat,
    pub is_writing: bool,
    pub max_write_line: nat,
    /// Writers admitted to the current phase so far, the initiator included.
    pub admitted_writers: nat,
    /// The grace quota the initiator installed for the current phase.
    pub grace_quota: nat,
    /// Readers admitted during the current phase by consuming a grace slot.
    pub admitted_readers: nat,
}

/// The controller's invariant, preserved by every step.
///
/// Outside a write phase all phase state is zero. During one, the phase
/// has at least its initiator admitted; the admitted writers and the write
/// slots still open together never exceed the configured write line; and
/// the grace slots still open plus the readers already admitted through
/// them always account for the whole installed quota.
pub open spec fn control_inv(v: CASControlView) -> bool {
    &&& v.max_write_line >= 1
    &&& v.active_readers <= 0xFFFF
    &&& v.pending_readers <= 0xFFFF
    &&& v.read_slots <= 0xFFFF_FFFF
    &&& v.write_slots <= 0xFFFF
    &&& v.next_writer_id <= 0xFFFF
    &&& v.pending_writers <= 0xFFFF
    &&& v.max_write_line <= 0xFFFF
    &&& if v.is_writing {
        &&& v.next_writer_id >= 1
        &&& v.admitted_writers >= 1
        &&& v.admitted_writers + v.write_slots <= v.max_write_line
        &&& v.admitted_readers + v.read_slots == v.grace_quota
    } else {
        &&& v.write_slots == 0
        &&& v.next_writer_id == 0
        &&& v.read_slots == 0
        &&& v.admitted_writers == 0
        &&& v.grace_quota == 0
        &&& v.admitted_readers == 0
    }
}

/// Nothing is admitted or registered: both sides may be admitted at once.
pub open spec fn control_open(v: CASControlView) -> bool {
    &&& !v.is_writing
    &&& v.active_readers == 0
    &&& v.pending_readers == 0
    &&& v.pending_writers == 0
}

/// A reader's scoped permit on the phased controller.
pub struct CASReadGuard {

}

impl CASReadGuard {
    /// The permit handed to an admitted reader.
    pub fn new() -> (r: Self) {
        CASReadGuard {  }
    }
}

/// A writer's scoped permit on the phased controller, carrying the slot
/// index whose turn the writer must await.
pub struct CASWriteGuard {
    slot_idx: u16,
}

impl CASWriteGuard {
    /// The slot index this permit was granted.
    pub closed spec fn slot(self) -> nat {
        self.slot_idx as nat
    }

    /// The permit handed to an admitted writer, for the given slot.
    pub fn new(slot_idx: u16) -> (r: Self)
        ensures
            r.slot() == slot_idx,
    {
        CASWriteGuard { slot_idx }
    }
}

impl AccessGuard for CASReadGuard {

}

impl AccessGuard for CASWriteGuard {

}

/// The phased controller's state. Each mutating method below is one atomic
/// step of the concurrent protocol; the concurrent runtime performs the
/// same step with a compare-and-swap built on the word functions above.
pub struct CASAccessControl {
    read_flags: u64,
    write_slots: u16,
    next_writer_id: u16,
    pending_writers: u16,
    is_writing: bool,
    max_write_line: u16,
    admitted_writers: Ghost<nat>,
    grace_quota: Ghost<nat>,
    admitted_readers: Ghost<nat>,
}

impl View for CASAccessControl {
    type V = CASControlView;

    closed spec fn view(&self) -> CASControlView {
        CASControlView {
            active_readers: active_readers_of(self.read_flags),
            pending_readers: pending_readers_of(self.read_flags),
            read_slots: read_slots_of(self.read_flags),
            write_slots: self.write_slots as nat,
            next_writer_id: self.next_writer_id as nat,
            pending_writers: self.pending_writers as nat,
            is_writing: self.is_writing,
            max_write_line: self.max_write_line as nat,
            admitted_writers: self.admitted_writers@,
            grace_quota: self.grace_quota@,
            admitted_readers: self.admitted_readers@,
        }
    }
}

impl CASAccessControl {
    /// A fresh controller with the given write-line bound, which must be
    /// at least one.
    pub fn new(max_write_line: u16) -> (r: Self)
        requires
            max_write_line >= 1,
        ensures
            control_inv(r@),
            control_open(r@),
            r@.max_write_line == max_write_line,
    {
        proof {
            assert(0u64 & ACTIVE_READERS_MASK == 0 && (0u64 & PENDING_READERS_MASK)
                >> PENDING_READERS_SHIFT == 0 && (0u64 & READ_SLOTS_MASK) >> READ_SLOTS_SHIFT == 0)
                by (bit_vector);
        }
        CASAccessControl {
            read_flags: 0,
            write_slots: 0,
            next_writer_id: 0,
            pending_writers: 0,
            is_writing: false,
            max_write_line,
            admitted_writers: Ghost(0),
            grace_quota: Ghost(0),
            admitted_readers: Ghost(0),
        }
    }

    /// One reader registers intent to read.
    pub fn inc_pending_readers(&mut self)
        requires
            control_inv(old(self)@),
            old(self)@.pending_readers < 0xFFFF,
        ensures
            control_inv(final(self)@),
            final(self)@ == (CASControlView {
                pending_readers: old(self)@.pending_readers + 1,
                ..old(self)@
            }),
    {
        self.read_flags = inc_pending_readers_word(self.read_flags);
    }

    /// A pending reader is admitted in one step, as done outside a write
    /// phase.
    pub fn initialize_read(&mut self)
        requires
            control_inv(old(self)@),
            old(self)@.pending_readers >= 1,
            old(self)@.active_readers < 0xFFFF,
        ensures
            control_inv(final(self)@),
            final(self)@ == (CASControlView {
                pending_readers: (old(self)@.pending_readers - 1) as nat,
                active_readers: old(self)@.active_readers + 1,
                ..old(self)@
            }),
    {
        self.read_flags = initialize_read_word(self.read_flags);
    }

    /// A pending reader tries to consume one grace slot during a write
    /// phase; returns whether it was admitted.
    pub fn try_reserve_read_slot(&mut self) -> (admitted: bool)
        requires
            control_inv(old(self)@),
            old(self)@.read_slots >= 1 ==> old(self)@.pending_readers >= 1 && old(
                self,
            )@.active_readers < 0xFFFF,
        ensures
            control_inv(final(self)@),
            admitted <==> old(self)@.read_slots >= 1,
            admitted ==> final(self)@ == (CASControlView {
                read_slots: (old(self)@.read_slots - 1) as nat,
                pending_readers: (old(self)@.pending_readers - 1) as nat,
                active_readers: old(self)@.active_readers + 1,
                admitted_readers: old(self)@.admitted_readers + 1,
                ..old(self)@
            }),
            !admitted ==> final(self)@ == old(self)@,
    {
        proof {
            lemma_read_slots_within_quota(old(self)@);
        }
        match try_reserve_read_slot_word(self.read_flags) {
            Some(w) => {
                self.read_flags = w;
                proof {
                    self.admitted_readers@ = self.admitted_readers@ + 1;
                }
                true
            },
            None => false,
        }
    }

    /// An active reader that slipped in while a phase was starting either
    /// consumes a grace slot and stays, or backs out to pending; returns
    /// whether it stayed.
    pub fn try_reserve_read_slot_or_reset(&mut self) -> (admitted: bool)
        requires
            control_inv(old(self)@),
            old(self)@.read_slots == 0 ==> old(self)@.pending_readers < 0xFFFF
                && old(self)@.active_readers >= 1,
        ensures
            control_inv(final(self)@),
            admitted <==> old(self)@.read_slots >= 1,
            admitted ==> final(self)@ == (CASControlView {
                read_slots: (old(self)@.read_slots - 1) as nat,
                admitted_readers: old(self)@.admitted_readers + 1,
                ..old(self)@
            }),
            !admitted ==> final(self)@ == (CASControlView {
                pending_readers: old(self)@.pending_readers + 1,
                active_readers: (old(self)@.active_readers - 1) as nat,
                ..old(self)@
            }),
    {
        let (w, admitted) = try_reserve_read_slot_or_reset_word(self.read_flags);
        self.read_flags = w;
        if admitted {
            proof {
                self.admitted_readers@ = self.admitted_readers@ + 1;
            }
        }
        admitted
    }

    /// An admitted reader gives its permit back.
    pub fn release_read(&mut self, g: CASReadGuard)
        requires
            control_inv(old(self)@),
            old(self)@.active_readers >= 1,
        ensures
            control_inv(final(self)@),
            final(self)@ == (CASControlView {
                active_readers: (old(self)@.active_readers - 1) as nat,
                ..old(self)@
            }),
    {
        self.read_flags = release_read_word(self.read_flags);
    }

    /// One writer registers intent to write.
    pub fn inc_pending_writers(&mut self)
        requires
            control_inv(old(self)@),
            old(self)@.pending_writers < 0xFFFF,
        ensures
            control_inv(final(self)@),
            final(self)@ == (CASControlView {
                pending_writers: old(self)@.pending_writers + 1,
                ..old(self)@
            }),
    {
        self.pending_writers = self.pending_writers + 1;
    }

    /// A writer that found its admission leaves the pending count.
    pub fn dec_pending_writers(&mut self)
        requires
            control_inv(old(self)@),
            old(self)@.pending_writers >= 1,
        ensures
            control_inv(final(self)@),
            final(self)@ == (CASControlView {
                pending_writers: (old(self)@.pending_writers - 1) as nat,
                ..old(self)@
            }),
    {
        self.pending_writers = self.pending_writers - 1;
    }

    /// A follower tries to reserve one of the phase's write slots; on
    /// success it returns its slot index, the slot count before the
    /// reservation.
    pub fn try_reserve_write_slot(&mut self) -> (r: Option<u16>)
        requires
            control_inv(old(self)@),
        ensures
            control_inv(final(self)@),
            r is Some <==> old(self)@.write_slots >= 1,
            r is Some ==> {
                &&& r->Some_0 as nat == old(self)@.write_slots
                &&& final(self)@ == (CASControlView {
                    write_slots: (old(self)@.write_slots - 1) as nat,
                    admitted_writers: old(self)@.admitted_writers + 1,
                    ..old(self)@
                })
            },
            r is None ==> final(self)@ == old(self)@,
    {
        if self.write_slots == 0 {
            None
        } else {
            let idx = self.write_slots;
            self.write_slots = self.write_slots - 1;
            proof {
                self.admitted_writers@ = self.admitted_writers@ + 1;
            }
            Some(idx)
        }
    }

    /// The writer that swapped `is_writing` from false to true opens the
    /// phase: it sizes the write line from the pending writers, keeps the
    /// first admission for itself and leaves the rest as write slots.
    /// Returns the initiator's own slot index, the phase size.
    pub fn initiate_phase(&mut self) -> (slot: u16)
        requires
            control_inv(old(self)@),
            !old(self)@.is_writing,
            old(self)@.pending_writers >= 1,
        ensures
            control_inv(final(self)@),
            slot as nat == if old(self)@.pending_writers < old(self)@.max_write_line {
                old(self)@.pending_writers
            } else {
                old(self)@.max_write_line
            },
            final(self)@ == (CASControlView {
                is_writing: true,
                write_slots: (slot - 1) as nat,
                next_writer_id: slot as nat,
                admitted_writers: 1nat,
                grace_quota: 0nat,
                admitted_readers: 0nat,
                ..old(self)@
            }),
    {
        self.is_writing = true;
        let slots_size = phase_size_for(self.pending_writers, self.max_write_line);
        self.write_slots = slots_size - 1;
        self.next_writer_id = slots_size;
        proof {
            self.admitted_writers@ = 1;
            self.grace_quota@ = 0;
            self.admitted_readers@ = 0;
        }
        slots_size
    }

    /// The initiator snapshots the pending readers and installs exactly
    /// that many read slots: the grace quota of the phase it just opened.
    pub fn grant_grace(&mut self)
        requires
            control_inv(old(self)@),
            old(self)@.is_writing,
            old(self)@.read_slots == 0,
            old(self)@.grace_quota == 0,
        ensures
            control_inv(final(self)@),
            final(self)@ == (CASControlView {
                read_slots: old(self)@.pending_readers,
                grace_quota: old(self)@.pending_readers,
                ..old(self)@
            }),
    {
        let pending = (self.read_flags & PENDING_READERS_MASK) >> PENDING_READERS_SHIFT;
        proof {
            let w = self.read_flags;
            assert((w & PENDING_READERS_MASK) >> PENDING_READERS_SHIFT <= 0xFFFF) by (bit_vector);
        }
        if pending > 0 {
            self.read_flags = initialize_read_slots_word(self.read_flags, pending);
        }
        proof {
            self.grace_quota@ = pending_readers_of(self.read_flags);
        }
    }

    /// The initiator's wait condition: it may begin mutating only once all
    /// active readers have drained and the whole grace quota has been
    /// consumed.
    pub fn writer_may_proceed(&self) -> (r: bool)
        ensures
            r <==> (self@.active_readers == 0 && self@.read_slots == 0),
    {
        let w = self.read_flags;
        let readers = w & ACTIVE_READERS_MASK;
        let slots = (w & READ_SLOTS_MASK) >> READ_SLOTS_SHIFT;
        readers == 0 && slots == 0
    }

    /// Whether a write phase is currently running.
    pub fn load_is_writing(&self) -> (r: bool)
        ensures
            r == self@.is_writing,
    {
        self.is_writing
    }

    /// A writer whose turn has come gives its permit back; the phase's
    /// last writer closes the phase.
    pub fn release_write(&mut self, g: CASWriteGuard)
        requires
            control_inv(old(self)@),
            old(self)@.is_writing,
            g.slot() == old(self)@.next_writer_id,
            old(self)@.next_writer_id == 1 ==> old(self)@.write_slots == 0 && old(
                self,
            )@.read_slots == 0,
        ensures
            control_inv(final(self)@),
            old(self)@.next_writer_id == 1 ==> final(self)@ == (CASControlView {
                is_writing: false,
                next_writer_id: 0nat,
                admitted_writers: 0nat,
                grace_quota: 0nat,
                admitted_readers: 0nat,
                ..old(self)@
            }),
            old(self)@.next_writer_id > 1 ==> final(self)@ == (CASControlView {
                next_writer_id: (old(self)@.next_writer_id - 1) as nat,
                ..old(self)@
            }),
    {
        let was = self.next_writer_id;
        self.next_writer_id = self.next_writer_id - 1;
        if was == 1 {
            self.is_writing = false;
            proof {
                self.admitted_writers@ = 0;
                self.grace_quota@ = 0;
                self.admitted_readers@ = 0;
            }
        }
    }
}

impl Default for CASAccessControl {
    /// A controller with the strictest write line: one writer per phase.
    fn default() -> (r: Self)
        ensures
            control_inv(r@),
            control_open(r@),
            r@.max_write_line == 1,
    {
        CASAccessControl::new(1)
    }
}

/// During a write phase no more read slots are ever open than the phase's
/// grace quota; in particular a slot consumption stands for one admission
/// out of that quota.
pub proof fn lemma_read_slots_within_quota(v: CASControlView)
    requires
        control_inv(v),
    ensures
        v.read_slots <= v.grace_quota,
        v.read_slots >= 1 ==> v.is_writing,
{
}

/// Bounded write line: however the phase unfolded, the writers admitted to
/// it — initiator and followers together — never exceed `max_write_line`.
pub proof fn lemma_bounded_write_line(v: CASControlView)
    requires
        control_inv(v),
        v.is_writing,
    ensures
        v.admitted_writers <= v.max_write_line,
        v.admitted_writers + v.write_slots <= v.max_write_line,
{
}

/// Grace admission: once the initiator's wait condition holds — no grace
/// slot left open — every admission of the installed quota has gone to a
/// reader. With the quota installed as the pending-reader count at the
/// initiator's snapshot, each reader that registered before the snapshot
/// is covered by one granted admission of the phase.
pub proof fn lemma_grace_admission(v: CASControlView)
    requires
        control_inv(v),
        v.is_writing,
        v.read_slots == 0,
    ensures
        v.admitted_readers == v.grace_quota,
{
}

/// An exponential-backoff helper created on first use, as the contending
/// loops only need it once a step has failed.
pub struct BackOffStrategy {
    raw: Option<CustomBackoff>,
}

impl BackOffStrategy {
    /// The number of waits taken so far, capped as the helper's step is.
    pub closed spec fn step(self) -> nat {
        match self.raw {
            Some(b) => b.step(),
            None => 0,
        }
    }

    /// Pauses the calling thread, backing off further on every call.
    pub fn wait(&mut self)
        ensures
            final(self).step() == if old(self).step() > crate::sync::YIELD_LIMIT {
                old(self).step()
            } else {
                old(self).step() + 1
            },
    {
        let mut b = match self.raw.take() {
            Some(b) => b,
            None => CustomBackoff::new(),
        };
        b.snooze();
        self.raw = Some(b);
    }
}

impl Default for BackOffStrategy {
    /// A helper that has not started backing off yet.
    fn default() -> (r: Self)
        ensures
            r.step() == 0,
    {
        BackOffStrategy { raw: None }
    }
}

impl AtomicAccessControl for CASAccessControl {
    type ReadGuard = CASReadGuard;

    type WriteGuard = CASWriteGuard;

    open spec fn wf(&self) -> bool {
        control_inv(self@)
    }

    open spec fn idle(&self) -> bool {
        control_open(self@)
    }

    open spec fn reading(&self) -> bool {
        &&& !self@.is_writing
        &&& self@.active_readers == 1
        &&& self@.pending_readers == 0
        &&& self@.pending_writers == 0
    }

    open spec fn writing(&self) -> bool {
        &&& self@.is_writing
        &&& self@.next_writer_id == 1
        &&& self@.write_slots == 0
        &&& self@.read_slots == 0
        &&& self@.grace_quota == 0
        &&& self@.active_readers == 0
        &&& self@.pending_readers == 0
        &&& self@.pending_writers == 0
    }

    open spec fn write_guard_for(&self, g: &CASWriteGuard) -> bool {
        g.slot() == self@.next_writer_id
    }

    /// Sequential admission of one reader: with the controller idle, the
    /// one-step path is taken at once. The concurrent runtime retries this
    /// path, consuming grace slots instead while a write phase runs.
    fn read(&mut self) -> (g: CASReadGuard) {
        self.inc_pending_readers();
        self.initialize_read();
        CASReadGuard::new()
    }

    fn end_read(&mut self, g: CASReadGuard) {
        self.release_read(g);
    }

    /// Sequential admission of one writer: with the controller idle, the
    /// caller becomes initiator of a phase of size one and may proceed at
    /// once, no grace being owed.
    fn write(&mut self) -> (g: CASWriteGuard) {
        self.inc_pending_writers();
        let slot = self.initiate_phase();
        self.dec_pending_writers();
        self.grant_grace();
        CASWriteGuard::new(slot)
    }

    fn end_write(&mut self, g: CASWriteGuard) {
        self.release_write(g);
    }
}

} // verus!
