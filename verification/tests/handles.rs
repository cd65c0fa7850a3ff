use atomic_cell::mem::GenStore;
use atomic_cell::value_ref::{ValueRef, ValueRefInner};

#[test]
fn raw_allocation_starts_with_one_reference() {
    let mut store = GenStore::new();
    let idx = ValueRefInner::raw(String::from("alpha"), &mut store);
    assert_eq!(store.refs_of(idx), 1);
    assert_eq!(store.borrow_data(idx), "alpha");
    assert_eq!(store.allocations(), 1);
    assert_eq!(store.deallocations(), 0);
    store.deallocate(idx);
    assert_eq!(store.allocations(), store.deallocations());
}

#[test]
fn handles_count_references_and_free_the_last() {
    let mut store = GenStore::new();
    let idx = ValueRefInner::raw(31u64, &mut store);
    let first = ValueRef::from(idx, &mut store);
    assert_eq!(store.refs_of(idx), 2);
    let second = first.duplicate(&mut store);
    assert_eq!(store.refs_of(idx), 3);
    assert_eq!(*first.get(&store), 31);
    assert_eq!(*second.get(&store), 31);
    assert!(!first.release(&mut store));
    assert_eq!(store.refs_of(idx), 2);
    assert!(!second.release(&mut store));
    // the raw allocation's own reference remains
    assert_eq!(store.refs_of(idx), 1);
    store.deallocate(idx);
    assert_eq!(store.live_generations(), 0);
    assert_eq!(store.allocations(), store.deallocations());
}

#[test]
fn fresh_generation_record_counts_one() {
    let inner = ValueRefInner::new(5u8);
    let mut store = GenStore::new();
    let idx = store.allocate(inner);
    assert_eq!(store.refs_of(idx), 1);
    assert_eq!(*store.borrow_data(idx), 5);
}
