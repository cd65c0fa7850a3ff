use atomic_cell::access::cas::{
    inc_pending_readers_word, initialize_read_slots_word, initialize_read_word,
    release_read_word, try_reserve_read_slot_or_reset_word, try_reserve_read_slot_word,
    CASAccessControl, CASReadGuard, CASWriteGuard,
};
use atomic_cell::sync::CustomBackoff;

#[test]
fn packed_word_counters_move_independently() {
    let mut w = 0u64;
    w = inc_pending_readers_word(w);
    w = inc_pending_readers_word(w);
    // two readers pending, nothing else
    assert_eq!(w, 2 << 16);
    w = initialize_read_word(w);
    // one active, one pending
    assert_eq!(w, (1 << 16) | 1);
    w = initialize_read_slots_word(w, 5);
    assert_eq!(w, (5 << 32) | (1 << 16) | 1);
    let admitted = try_reserve_read_slot_word(w).expect("a slot is open");
    // slot consumed, pending reader admitted
    assert_eq!(admitted, (4 << 32) | 2);
    let (after, got) = try_reserve_read_slot_or_reset_word(admitted);
    assert!(got);
    assert_eq!(after, (3 << 32) | 2);
    let released = release_read_word(after);
    assert_eq!(released, (3 << 32) | 1);
}

#[test]
fn reader_with_no_slot_backs_out() {
    // an active reader that finds no grace slot reverses its admission
    let mut w = 0u64;
    w = inc_pending_readers_word(w);
    w = initialize_read_word(w);
    assert_eq!(w, 1);
    let (reset, got) = try_reserve_read_slot_or_reset_word(w);
    assert!(!got);
    assert_eq!(reset, 1 << 16);
    // and with no slot open, a pending reader is not admitted
    assert!(try_reserve_read_slot_word(reset).is_none());
}

#[test]
fn write_line_is_bounded() {
    // seven writers pending, a write line of four: the initiator takes the
    // first admission, exactly three followers get slots, the next is
    // refused
    let mut c = CASAccessControl::new(4);
    for _ in 0..7 {
        c.inc_pending_writers();
    }
    let slot = c.initiate_phase();
    assert_eq!(slot, 4);
    assert_eq!(c.try_reserve_write_slot(), Some(3));
    assert_eq!(c.try_reserve_write_slot(), Some(2));
    assert_eq!(c.try_reserve_write_slot(), Some(1));
    assert_eq!(c.try_reserve_write_slot(), None);
}

#[test]
fn grace_quota_covers_readers_pending_at_the_snapshot() {
    // four readers register intent before a writer opens a phase with a
    // write line of one; the initiator grants them four slots and may not
    // proceed until all four were admitted and drained
    let mut c = CASAccessControl::new(1);
    for _ in 0..4 {
        c.inc_pending_readers();
    }
    c.inc_pending_writers();
    let slot = c.initiate_phase();
    assert_eq!(slot, 1);
    c.dec_pending_writers();
    c.grant_grace();
    assert!(!c.writer_may_proceed(), "the grace quota is still open");
    for _ in 0..4 {
        assert!(c.try_reserve_read_slot(), "a pre-registered reader is admitted");
    }
    assert!(!c.try_reserve_read_slot(), "the quota is exactly the snapshot");
    assert!(!c.writer_may_proceed(), "admitted readers still drain");
    for _ in 0..4 {
        c.release_read(CASReadGuard::new());
    }
    assert!(c.writer_may_proceed());
    assert!(c.load_is_writing());
}

#[test]
fn last_writer_closes_the_phase() {
    let mut c = CASAccessControl::new(2);
    c.inc_pending_writers();
    c.inc_pending_writers();
    let initiator_slot = c.initiate_phase();
    assert_eq!(initiator_slot, 2);
    c.dec_pending_writers();
    let follower_slot = c.try_reserve_write_slot().expect("one slot for the follower");
    assert_eq!(follower_slot, 1);
    c.dec_pending_writers();
    c.grant_grace();
    assert!(c.load_is_writing());
    c.release_write(CASWriteGuard::new(initiator_slot));
    assert!(c.load_is_writing(), "the follower still writes");
    c.release_write(CASWriteGuard::new(follower_slot));
    assert!(!c.load_is_writing(), "the last writer reopens the cell");
}

#[test]
fn backoff_completes_after_its_budget() {
    let mut b = CustomBackoff::new();
    assert!(!b.is_completed());
    for _ in 0..10 {
        b.snooze();
    }
    assert!(!b.is_completed());
    b.snooze();
    assert!(b.is_completed());
    b.snooze();
    assert!(b.is_completed());
}
