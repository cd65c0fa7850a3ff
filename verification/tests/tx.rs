use atomic_cell::access::cas::CASAccessControl;
use atomic_cell::atomic::{Atomic, AtomicIdGen, Transaction, TransferOp};
use atomic_cell::mem::GenStore;

/// A small deterministic generator standing in for the random amounts the
/// transfer workers draw.
struct Lcg {
    state: u64,
}

impl Lcg {
    fn new(seed: u64) -> Lcg {
        Lcg { state: seed }
    }

    fn next_below(&mut self, bound: u32) -> u32 {
        self.state = self
            .state
            .wrapping_mul(6364136223846793005)
            .wrapping_add(1442695040888963407);
        ((self.state >> 33) as u32) % bound
    }
}

fn read_value(
    cell: &mut Vec<Atomic<u32, CASAccessControl>>,
    at: usize,
    store: &mut GenStore<u32>,
) -> u32 {
    let h = cell[at].read(store);
    let v = *h.get(store);
    h.release(store);
    v
}

#[test]
fn atomic_transaction() {
    // five workers repeatedly transfer amounts below one thousand from the
    // first account to the second until the first refuses; the funds are
    // conserved: everything transferred shows up in the second account
    let mut store = GenStore::new();
    let mut ids = AtomicIdGen::new();
    let mut cells = Vec::new();
    cells.push(Atomic::new_cas(u32::MAX, 1, &mut store, &mut ids));
    cells.push(Atomic::new_cas(0u32, 1, &mut store, &mut ids));

    let mut total_funds: u32 = 0;
    let mut rng = Lcg::new(11);
    for _worker in 0..5 {
        loop {
            let amount = rng.next_below(1000);
            let tx = Transaction::new(2)
                .add(1, TransferOp::Deposit(amount))
                .add(0, TransferOp::Withdraw(amount));
            if !tx.execute(&mut cells, &mut store) {
                break;
            }
            total_funds += amount;
            if total_funds > 100_000 {
                // enough moved for this worker; the workload stays bounded
                break;
            }
        }
    }

    assert_eq!(total_funds, read_value(&mut cells, 1, &mut store));
    assert_eq!(u32::MAX - total_funds, read_value(&mut cells, 0, &mut store));
}

#[test]
fn transaction_conserves_funds_to_exhaustion() {
    // keep transferring a fixed amount until the source refuses; the sum
    // of both accounts never changes and the source ends below the amount
    let mut store = GenStore::new();
    let mut ids = AtomicIdGen::new();
    let mut cells = Vec::new();
    cells.push(Atomic::new_cas(10_000u32, 1, &mut store, &mut ids));
    cells.push(Atomic::new_cas(0u32, 1, &mut store, &mut ids));

    loop {
        let tx = Transaction::new(2)
            .add(1, TransferOp::Deposit(777))
            .add(0, TransferOp::Withdraw(777));
        let a = read_value(&mut cells, 0, &mut store);
        let b = read_value(&mut cells, 1, &mut store);
        assert_eq!(a as u64 + b as u64, 10_000);
        if !tx.execute(&mut cells, &mut store) {
            break;
        }
    }
    let a = read_value(&mut cells, 0, &mut store);
    let b = read_value(&mut cells, 1, &mut store);
    assert_eq!(a as u64 + b as u64, 10_000);
    assert!(a < 777);
    assert_eq!(b % 777, 0);
}

#[test]
fn aborted_transaction_changes_nothing_and_balances_memory() {
    let mut store = GenStore::new();
    let mut ids = AtomicIdGen::new();
    let mut cells = Vec::new();
    cells.push(Atomic::new_cas(5u32, 1, &mut store, &mut ids));
    cells.push(Atomic::new_cas(9u32, 1, &mut store, &mut ids));

    let tx = Transaction::new(2)
        .add(1, TransferOp::Deposit(100))
        .add(0, TransferOp::Withdraw(100));
    assert!(!tx.execute(&mut cells, &mut store));
    assert_eq!(read_value(&mut cells, 0, &mut store), 5);
    assert_eq!(read_value(&mut cells, 1, &mut store), 9);

    let b = cells.pop().unwrap();
    let a = cells.pop().unwrap();
    a.release(&mut store);
    b.release(&mut store);
    assert_eq!(store.allocations(), store.deallocations());
}

#[test]
fn empty_transaction_commits() {
    let mut store = GenStore::new();
    let mut ids = AtomicIdGen::new();
    let mut cells: Vec<Atomic<u32, CASAccessControl>> = Vec::new();
    cells.push(Atomic::new_cas(1u32, 1, &mut store, &mut ids));
    let tx: Transaction<TransferOp> = Transaction::new(0);
    assert!(tx.execute(&mut cells, &mut store));
    assert_eq!(read_value(&mut cells, 0, &mut store), 1);
}

#[test]
fn transaction_sorts_by_cell_identity() {
    // the deposit is listed first but targets the higher identity; both
    // orders of listing commit and agree
    let mut store = GenStore::new();
    let mut ids = AtomicIdGen::new();
    let mut cells = Vec::new();
    cells.push(Atomic::new_cas(50u32, 1, &mut store, &mut ids));
    cells.push(Atomic::new_cas(0u32, 1, &mut store, &mut ids));

    let tx = Transaction::new(2)
        .add(0, TransferOp::Withdraw(20))
        .add(1, TransferOp::Deposit(20));
    assert!(tx.execute(&mut cells, &mut store));
    let tx = Transaction::new(2)
        .add(1, TransferOp::Deposit(20))
        .add(0, TransferOp::Withdraw(20));
    assert!(tx.execute(&mut cells, &mut store));
    assert_eq!(read_value(&mut cells, 0, &mut store), 10);
    assert_eq!(read_value(&mut cells, 1, &mut store), 40);
}
