use atomic_cell::atomic::{Atomic, AtomicIdGen};
use atomic_cell::mem::GenStore;

#[test]
fn read_returns_initial_value() {
    let mut store = GenStore::new();
    let mut ids = AtomicIdGen::new();
    let mut cell = Atomic::new_cas(42u64, 4, &mut store, &mut ids);
    let h = cell.read(&mut store);
    assert_eq!(*h.get(&store), 42);
    h.release(&mut store);
    cell.release(&mut store);
    assert_eq!(store.allocations(), store.deallocations());
}

#[test]
fn write_applies_update_to_current_value() {
    let mut store = GenStore::new();
    let mut ids = AtomicIdGen::new();
    let mut cell = Atomic::new_cas(10u64, 4, &mut store, &mut ids);
    cell.write(&mut store, |x: &u64| *x * 3);
    let h = cell.read(&mut store);
    assert_eq!(*h.get(&store), 30);
    h.release(&mut store);
    cell.release(&mut store);
    assert_eq!(store.allocations(), store.deallocations());
}

#[test]
fn write_convergence_single_lock_cell() {
    // five writers, ten thousand increments each, on the lock baseline
    let mut store = GenStore::new();
    let mut ids = AtomicIdGen::new();
    let mut cell = Atomic::new_lock(0u64, &mut store, &mut ids);
    for _writer in 0..5 {
        for _ in 0..10_000 {
            cell.write(&mut store, |x: &u64| *x + 1);
        }
    }
    let h = cell.read(&mut store);
    assert_eq!(*h.get(&store), 50_000);
    h.release(&mut store);
    cell.release(&mut store);
    assert_eq!(store.allocations(), store.deallocations());
}

#[test]
fn write_convergence_phased_cell_with_polling_readers() {
    // sixteen writers, 62500 increments each, with readers polling between
    // rounds; expected final read is one million, and the allocations
    // balance once everything is released
    let mut store = GenStore::new();
    let mut ids = AtomicIdGen::new();
    let mut cell = Atomic::new_cas(0u64, 4, &mut store, &mut ids);
    let mut last_polled = vec![0u64; 16];
    for round in 0..16 {
        for step in 0..62_500u64 {
            cell.write(&mut store, |x: &u64| *x + 1);
            if step % 12_500 == 0 {
                let h = cell.read(&mut store);
                last_polled[round] = *h.get(&store);
                h.release(&mut store);
            }
        }
    }
    let h = cell.read(&mut store);
    assert_eq!(*h.get(&store), 1_000_000);
    h.release(&mut store);
    cell.release(&mut store);
    assert_eq!(store.allocations(), store.deallocations());
}

#[test]
fn monotonic_reads_under_monotonic_writes() {
    let mut store = GenStore::new();
    let mut ids = AtomicIdGen::new();
    let mut cell = Atomic::new_cas(0u64, 2, &mut store, &mut ids);
    let mut observations = Vec::new();
    for step in 0..200u64 {
        cell.write(&mut store, move |x: &u64| *x + (step % 3));
        let h = cell.read(&mut store);
        observations.push(*h.get(&store));
        h.release(&mut store);
    }
    for w in observations.windows(2) {
        assert!(w[0] <= w[1]);
    }
    cell.release(&mut store);
    assert_eq!(store.allocations(), store.deallocations());
}

#[test]
fn snapshot_outlives_writes() {
    // a snapshot taken before a hundred increments still reads zero
    let mut store = GenStore::new();
    let mut ids = AtomicIdGen::new();
    let mut cell = Atomic::new_cas(0u64, 1, &mut store, &mut ids);
    let snapshot = cell.read(&mut store);
    for _ in 0..100 {
        cell.write(&mut store, |x: &u64| *x + 1);
    }
    assert_eq!(*snapshot.get(&store), 0);
    let h = cell.read(&mut store);
    assert_eq!(*h.get(&store), 100);
    h.release(&mut store);
    snapshot.release(&mut store);
    cell.release(&mut store);
    assert_eq!(store.allocations(), store.deallocations());
}

#[test]
fn snapshots_outlive_the_cell() {
    // the cell is dropped while two handles are outstanding: both keep
    // returning the last value, and allocations balance after both drop
    let mut store = GenStore::new();
    let mut ids = AtomicIdGen::new();
    let mut cell = Atomic::new_cas(7u64, 2, &mut store, &mut ids);
    cell.write(&mut store, |x: &u64| *x + 1);
    let first = cell.read(&mut store);
    let second = first.duplicate(&mut store);
    let freed = cell.release(&mut store);
    assert!(!freed, "outstanding snapshots keep the generation alive");
    assert_eq!(*first.get(&store), 8);
    assert_eq!(*second.get(&store), 8);
    assert!(!first.release(&mut store));
    assert!(second.release(&mut store));
    assert_eq!(store.allocations(), store.deallocations());
    assert_eq!(store.live_generations(), 0);
}

#[test]
fn cell_identities_are_fresh_and_increasing() {
    let mut store = GenStore::new();
    let mut ids = AtomicIdGen::new();
    let a = Atomic::new_cas(0u32, 1, &mut store, &mut ids);
    let b = Atomic::new_lock(0u32, &mut store, &mut ids);
    let c = Atomic::new_cas(0u32, 5, &mut store, &mut ids);
    assert!(a.id() < b.id());
    assert!(b.id() < c.id());
    a.release(&mut store);
    b.release(&mut store);
    c.release(&mut store);
    assert_eq!(store.allocations(), store.deallocations());
}
