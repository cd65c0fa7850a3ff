//! The atomic cell: one shared value behind an access controller.
//!
//! A cell owns the index of its current value generation in a generation
//! store, an access controller that arbitrates between readers and
//! writers, and an identity used only to order transactional locking.
//! Reading hands out a reference-counted snapshot of the current
//! generation; writing installs a fresh generation computed from the
//! current one and gives up the cell's reference on the old one. The
//! cell's ghost history records every value it has installed, so the
//! convergence and monotonicity laws can be stated over it.

use vstd::prelude::*;

use crate::access::AtomicAccessControl;
use crate::access::cas::CASAccessControl;
use crate::access::lock::LockAccessControl;
use crate::mem::{Gen, GenStore};
use crate::value_ref::{ValueRef, ValueRefInner};

verus! {

/// The process-wide identity counter, kept as an explicit value so that
/// construction stays verifiable: each cell draws a fresh, strictly larger
/// identity, the total order that transactions lock in.
pub struct AtomicIdGen {
    next: u64,
}

impl AtomicIdGen {
    /// The identity the next construction will draw.
    pub closed spec fn next_id(self) -> nat {
        self.next as nat
    }

    /// A generator whose first identity is zero.
    pub fn new() -> (r: Self)
        ensures
            r.next_id() == 0,
    {
        AtomicIdGen { next: 0 }
    }

    /// Draws a fresh identity, strictly larger than any drawn before.
    pub fn fresh(&mut self) -> (id: u64)
        requires
            old(self).next_id() < u64::MAX,
        ensures
            id as nat == old(self).next_id(),
            final(self).next_id() == old(self).next_id() + 1,
    {
        let id = self.next;
        self.next = self.next + 1;
        id
    }
}

/// The atomic cell: an identity, the current generation's index, and the
/// access controller arbitrating its readers and writers.
pub struct Atomic<T, A: AtomicAccessControl> {
    id: u64,
    current: usize,
    control: A,
    hist: Ghost<Seq<T>>,
}

impl<T, A: AtomicAccessControl> Atomic<T, A> {
    /// The cell's identity, fixed at construction.
    pub closed spec fn spec_id(self) -> nat {
        self.id as nat
    }

    /// The index of the cell's current generation.
    pub closed spec fn current(self) -> int {
        self.current as int
    }

    /// Every value the cell has installed, oldest first; the last entry is
    /// the current value.
    pub closed spec fn history(self) -> Seq<T> {
        self.hist@
    }

    /// The cell's current value, as stored in `store`.
    pub open spec fn value(self, store: GenStore<T>) -> T {
        store.gen_at(self.current()).data
    }

    /// The cell's controller satisfies its invariant and is at rest. This
    /// depends on the cell alone, so it survives any change to the store.
    pub closed spec fn ctrl_ok(self) -> bool {
        &&& self.control.wf()
        &&& self.control.idle()
    }

    /// The cell is consistent with the store: its current generation is
    /// live, holds the cell's share of the references, matches the end of
    /// the history, and the controller is at rest.
    pub open spec fn wf(self, store: GenStore<T>) -> bool {
        &&& self.ctrl_ok()
        &&& store.live(self.current())
        &&& store.gen_at(self.current()).refs >= 1
        &&& self.history().len() >= 1
        &&& self.history().last() == store.gen_at(self.current()).data
    }

    /// The cell's identity, for the transactional lock order.
    pub fn id(&self) -> (r: u64)
        ensures
            r as nat == self.spec_id(),
    {
        self.id
    }

    /// Takes a snapshot of the current value: a read permit is acquired,
    /// the current generation gains the snapshot's reference, and the
    /// permit is given back. The handle stays valid until released,
    /// independent of later writes.
    pub fn read(&mut self, store: &mut GenStore<T>) -> (h: ValueRef<T>)
        requires
            old(self).wf(*old(store)),
            old(store).gen_at(old(self).current()).refs < 0xFFFF,
        ensures
            final(self).wf(*final(store)),
            final(self).spec_id() == old(self).spec_id(),
            final(self).current() == old(self).current(),
            final(self).history() == old(self).history(),
            final(store)@ == old(store)@.update(
                old(self).current(),
                Some(Gen {
                    data: old(self).value(*old(store)),
                    refs: old(store).gen_at(old(self).current()).refs + 1,
                }),
            ),
            h.valid(*final(store)),
            h.idx() == old(self).current(),
            h.observed() == old(self).value(*old(store)),
            h.observed() == old(self).history().last(),
    {
        let permit = self.control.read();
        let h = ValueRef::from(self.current, store);
        self.control.end_read(permit);
        h
    }

    /// Replaces the value with `update_fn` of the current one: a write
    /// permit is acquired, a fresh generation holding the new value is
    /// installed, the permit is given back, and the cell's reference on
    /// the old generation is released — destroying it unless snapshots
    /// still hold it. Every other live generation is left untouched.
    pub fn write<F: Fn(&T) -> T>(&mut self, store: &mut GenStore<T>, update_fn: F)
        requires
            old(self).wf(*old(store)),
            old(store)@.len() < usize::MAX,
            call_requires(update_fn, (&old(self).value(*old(store)),)),
        ensures
            final(self).wf(*final(store)),
            final(self).spec_id() == old(self).spec_id(),
            final(self).current() == old(store)@.len(),
            ({
                let newv = final(self).value(*final(store));
                let cur = old(self).current();
                let oldrefs = old(store).gen_at(cur).refs;
                &&& call_ensures(update_fn, (&old(self).value(*old(store)),), newv)
                &&& final(self).history() == old(self).history().push(newv)
                &&& final(store)@ == if oldrefs == 1 {
                    old(store)@.push(Some(Gen { data: newv, refs: 1nat })).update(
                        cur,
                        None::<Gen<T>>,
                    )
                } else {
                    old(store)@.push(Some(Gen { data: newv, refs: 1nat })).update(
                        cur,
                        Some(
                            Gen {
                                data: old(store).gen_at(cur).data,
                                refs: (oldrefs - 1) as nat,
                            },
                        ),
                    )
                }
            }),
    {
        let permit = self.control.write();
        let new_val = update_fn(store.borrow_data(self.current));
        proof {
            self.hist@ = self.hist@.push(new_val);
        }
        let new_idx = ValueRefInner::raw(new_val, store);
        let old_idx = self.current;
        self.current = new_idx;
        self.control.end_write(permit);
        store.dec_refs(old_idx);
    }

    /// Drops the cell: its reference on the current generation is given
    /// back, destroying the generation unless snapshots still hold it —
    /// live handles keep the last value alive past the cell.
    pub fn release(self, store: &mut GenStore<T>) -> (freed: bool)
        requires
            self.wf(*old(store)),
        ensures
            freed <==> old(store).gen_at(self.current()).refs == 1,
            final(store)@ == if freed {
                old(store)@.update(self.current(), None::<Gen<T>>)
            } else {
                old(store)@.update(
                    self.current(),
                    Some(
                        Gen {
                            data: old(store).gen_at(self.current()).data,
                            refs: (old(store).gen_at(self.current()).refs - 1) as nat,
                        },
                    ),
                )
            },
    {
        store.dec_refs(self.current)
    }
}

impl<T> Atomic<T, CASAccessControl> {
    /// A cell arbitrated by the phased controller, with the given bound on
    /// writers per phase.
    pub fn new_cas(value: T, max_write_line: u16, store: &mut GenStore<T>, ids: &mut AtomicIdGen) -> (c:
        Atomic<T, CASAccessControl>)
        requires
            max_write_line >= 1,
            old(store)@.len() < usize::MAX,
            old(ids).next_id() < u64::MAX,
        ensures
            c.wf(*final(store)),
            final(store)@ == old(store)@.push(Some(Gen { data: value, refs: 1nat })),
            c.current() == old(store)@.len(),
            c.spec_id() == old(ids).next_id(),
            c.history() == Seq::empty().push(value),
            final(ids).next_id() == old(ids).next_id() + 1,
    {
        let raw = ValueRefInner::raw(value, store);
        let c = Atomic {
            id: ids.fresh(),
            current: raw,
            control: CASAccessControl::new(max_write_line),
            hist: Ghost(Seq::empty().push(value)),
        };
        c
    }
}

impl<T> Atomic<T, LockAccessControl> {
    /// A cell arbitrated by the reader-writer-lock baseline.
    pub fn new_lock(value: T, store: &mut GenStore<T>, ids: &mut AtomicIdGen) -> (c: Atomic<
        T,
        LockAccessControl,
    >)
        requires
            old(store)@.len() < usize::MAX,
            old(ids).next_id() < u64::MAX,
        ensures
            c.wf(*final(store)),
            final(store)@ == old(store)@.push(Some(Gen { data: value, refs: 1nat })),
            c.current() == old(store)@.len(),
            c.spec_id() == old(ids).next_id(),
            c.history() == Seq::empty().push(value),
            final(ids).next_id() == old(ids).next_id() + 1,
    {
        let raw = ValueRefInner::raw(value, store);
        let c = Atomic {
            id: ids.fresh(),
            current: raw,
            control: LockAccessControl::new(),
            hist: Ghost(Seq::empty().push(value)),
        };
        c
    }
}

/// One cell's update inside a transaction: a function from the current
/// value to an optional new one, where no value means the whole
/// transaction aborts.
pub trait TxUpdate<T>: Sized {
    /// What the update computes on a given current value.
    spec fn spec_apply(&self, v: T) -> Option<T>;

    /// Computes the update; returning nothing aborts the transaction.
    fn apply(&self, v: &T) -> (r: Option<T>)
        ensures
            r == self.spec_apply(*v),
    ;
}

/// A cell index `c` is one of the transaction's targets.
pub open spec fn tx_touches<U>(entries: Seq<(usize, U)>, c: int) -> bool {
    exists|k: int| 0 <= k < entries.len() && entries[k].0 as int == c
}

/// A store index `i` is the current generation of one of the transaction's
/// target cells.
pub open spec fn tx_old_current<T, A: AtomicAccessControl, U>(
    entries: Seq<(usize, U)>,
    cells: Seq<Atomic<T, A>>,
    i: int,
) -> bool {
    exists|k: int| 0 <= k < entries.len() && cells[entries[k].0 as int].current() == i
}

/// Every update of the transaction admits its cell's current value.
pub open spec fn tx_all_apply<T, A: AtomicAccessControl, U: TxUpdate<T>>(
    entries: Seq<(usize, U)>,
    cells: Seq<Atomic<T, A>>,
    store: GenStore<T>,
) -> bool {
    forall|k: int|
        0 <= k < entries.len() ==> (#[trigger] entries[k].1.spec_apply(
            cells[entries[k].0 as int].value(store),
        )) is Some
}

/// An all-or-nothing update across several cells: each target cell gets a
/// new value computed from its current one, or — if any update declines —
/// none does.
pub struct Transaction<U> {
    entries: Vec<(usize, U)>,
}

impl<U> Transaction<U> {
    /// The transaction's entries: for each target, the index of the cell
    /// in the caller's vector and the update to run on it.
    pub closed spec fn ops(self) -> Seq<(usize, U)> {
        self.entries@
    }

    /// An empty transaction, sized for `capacity` entries.
    pub fn new(capacity: usize) -> (r: Self)
        ensures
            r.ops() == Seq::<(usize, U)>::empty(),
    {
        let r = Transaction { entries: Vec::with_capacity(capacity) };
        proof {
            assert(r.ops() =~= Seq::<(usize, U)>::empty());
        }
        r
    }

    /// Adds one target cell with its update.
    pub fn add(self, cell: usize, update_fn: U) -> (r: Self)
        ensures
            r.ops() == self.ops().push((cell, update_fn)),
    {
        let mut entries = self.entries;
        entries.push((cell, update_fn));
        Transaction { entries }
    }
}

/// The order in which a transaction visits its entries: a permutation of
/// the entry positions, ascending by target cell identity. Locking in one
/// global order is what prevents deadlock between overlapping
/// transactions.
#[verifier::loop_isolation(false)]
fn sort_order<T, A: AtomicAccessControl, U>(
    entries: &Vec<(usize, U)>,
    cells: &Vec<Atomic<T, A>>,
) -> (order: Vec<usize>)
    requires
        forall|k: int| 0 <= k < entries@.len() ==> (#[trigger] entries@[k].0 as int) < cells@.len(),
    ensures
        order@.len() == entries@.len(),
        forall|j: int| 0 <= j < order@.len() ==> (#[trigger] order@[j] as int) < entries@.len(),
        forall|k: int| 0 <= k < entries@.len() ==> order@.contains(#[trigger] (k as usize)),
        order@.no_duplicates(),
        forall|a: int, b: int|
            0 <= a < b < order@.len() ==> cells@[entries@[order@[a] as int].0 as int].spec_id()
                <= cells@[entries@[order@[b] as int].0 as int].spec_id(),
{
    let n = entries.len();
    let mut order: Vec<usize> = Vec::new();
    let mut j: usize = 0;
    while j < n
        invariant
            j <= n,
            order@.len() == j,
            forall|q: int| 0 <= q < order@.len() ==> (#[trigger] order@[q] as int) < j,
            forall|k: int| 0 <= k < j ==> order@.contains(#[trigger] (k as usize)),
            order@.no_duplicates(),
            forall|a: int, b: int|
                0 <= a < b < order@.len() ==> cells@[entries@[order@[a] as int].0 as int].spec_id()
                    <= cells@[entries@[order@[b] as int].0 as int].spec_id(),
        decreases n - j,
    {
        let target = cells[entries[j].0].id();
        let mut p: usize = 0;
        while p < order.len() && cells[entries[order[p]].0].id() <= target
            invariant
                p <= order@.len(),
                forall|q: int| 0 <= q < p ==> cells@[entries@[order@[q] as int].0 as int].spec_id()
                    <= target as nat,
            decreases order@.len() - p,
        {
            p = p + 1;
        }
        let ghost pre = order@;
        order.insert(p, j);
        proof {
            pre.insert_ensures(p as int, j);
            assert forall|k: int| 0 <= k < j + 1 implies order@.contains(
                #[trigger] (k as usize),
            ) by {
                if k < j {
                    let q = choose|q: int| 0 <= q < pre.len() && pre[q] == k as usize;
                    if q < p {
                        assert(order@[q] == k as usize);
                    } else {
                        assert(order@[q + 1] == k as usize);
                    }
                } else {
                    assert(order@[p as int] == j as usize);
                }
            }
            assert forall|a: int, b: int| 0 <= a < b < order@.len() implies cells@[entries@[
                order@[a] as int].0 as int].spec_id() <= cells@[entries@[order@[b] as int].0 as int].spec_id() by {
                if a == p && b > p {
                    assert(order@[b] == pre[b - 1]);
                    assert(cells@[entries@[pre[p as int] as int].0 as int].spec_id() > target as nat);
                    assert(cells@[entries@[pre[p as int] as int].0 as int].spec_id()
                        <= cells@[entries@[pre[b - 1] as int].0 as int].spec_id());
                } else if a < p && b == p {
                    assert(order@[a] == pre[a]);
                } else if a < p && b > p {
                    assert(order@[a] == pre[a]);
                    assert(order@[b] == pre[b - 1]);
                } else if a > p {
                    assert(order@[a] == pre[a - 1]);
                    assert(order@[b] == pre[b - 1]);
                } else {
                    assert(a < p && b < p);
                    assert(order@[a] == pre[a]);
                    assert(order@[b] == pre[b]);
                }
            }
            assert forall|q1: int, q2: int| 0 <= q1 < q2 < order@.len() implies order@[q1]
                != order@[q2] by {
                if q1 == p {
                    assert(order@[q2] == pre[q2 - 1]);
                } else if q2 == p {
                    assert(order@[q1] == pre[q1]);
                } else if q1 < p && q2 < p {
                    assert(order@[q1] == pre[q1] && order@[q2] == pre[q2]);
                } else if q1 < p && q2 > p {
                    assert(order@[q1] == pre[q1] && order@[q2] == pre[q2 - 1]);
                } else {
                    assert(order@[q1] == pre[q1 - 1] && order@[q2] == pre[q2 - 1]);
                }
            }
        }
        j = j + 1;
    }
    order
}

/// The two cells agree on everything but their controller's state.
pub open spec fn same_cell_core<T, A: AtomicAccessControl>(
    c1: Atomic<T, A>,
    c2: Atomic<T, A>,
) -> bool {
    &&& c1.spec_id() == c2.spec_id()
    &&& c1.current() == c2.current()
    &&& c1.history() == c2.history()
}

impl<U> Transaction<U> {
    /// Runs the transaction against `cells`: write permits are acquired on
    /// every target cell in ascending identity order; each update is then
    /// applied to its cell's current value and the new generation
    /// installed. If every update returns a value, the permits are given
    /// back and the old generations' references released; if any update
    /// declines, the installed generations are rolled back and destroyed,
    /// and no cell changes. Returns whether the transaction committed.
    #[verifier::loop_isolation(false)]
    #[verifier::rlimit(100)]
    pub fn execute<T, A: AtomicAccessControl>(
        self,
        cells: &mut Vec<Atomic<T, A>>,
        store: &mut GenStore<T>,
    ) -> (r: bool) where U: TxUpdate<T>
        requires
            forall|k: int|
                0 <= k < self.ops().len() ==> (#[trigger] self.ops()[k].0 as int) < old(
                    cells,
                )@.len(),
            forall|k1: int, k2: int|
                0 <= k1 < k2 < self.ops().len() ==> self.ops()[k1].0 != self.ops()[k2].0,
            forall|k: int|
                0 <= k < self.ops().len() ==> old(cells)@[#[trigger] self.ops()[k].0 as int].wf(
                    *old(store),
                ),
            forall|k1: int, k2: int|
                0 <= k1 < k2 < self.ops().len() ==> old(cells)@[self.ops()[k1].0 as int].current()
                    != old(cells)@[self.ops()[k2].0 as int].current(),
            old(store)@.len() + self.ops().len() <= usize::MAX,
        ensures
            r <==> tx_all_apply(self.ops(), old(cells)@, *old(store)),
            final(cells)@.len() == old(cells)@.len(),
            final(store)@.len() >= old(store)@.len(),
            forall|i: int|
                0 <= i < old(cells)@.len() && !tx_touches(self.ops(), i) ==> final(cells)@[i]
                    == old(cells)@[i],
            !r ==> {
                &&& forall|k: int|
                    0 <= k < self.ops().len() ==> {
                        let ci = #[trigger] self.ops()[k].0 as int;
                        &&& same_cell_core(final(cells)@[ci], old(cells)@[ci])
                        &&& final(cells)@[ci].wf(*final(store))
                    }
                &&& forall|i: int|
                    0 <= i < old(store)@.len() ==> final(store)@[i] == old(store)@[i]
                &&& forall|i: int|
                    old(store)@.len() <= i < final(store)@.len() ==> final(store)@[i] is None
            },
            r ==> {
                &&& final(store)@.len() == old(store)@.len() + self.ops().len()
                &&& forall|k: int|
                    0 <= k < self.ops().len() ==> {
                        let ci = #[trigger] self.ops()[k].0 as int;
                        let newv = self.ops()[k].1.spec_apply(
                            old(cells)@[ci].value(*old(store)),
                        )->Some_0;
                        &&& final(cells)@[ci].spec_id() == old(cells)@[ci].spec_id()
                        &&& final(cells)@[ci].wf(*final(store))
                        &&& old(store)@.len() <= final(cells)@[ci].current() < final(store)@.len()
                        &&& final(cells)@[ci].value(*final(store)) == newv
                        &&& final(cells)@[ci].history() == old(cells)@[ci].history().push(newv)
                    }
                &&& forall|i: int|
                    0 <= i < old(store)@.len() && !tx_old_current(self.ops(), old(cells)@, i)
                        ==> final(store)@[i] == old(store)@[i]
                &&& forall|k: int|
                    0 <= k < self.ops().len() ==> {
                        let cur = old(cells)@[#[trigger] self.ops()[k].0 as int].current();
                        let oldg = old(store).gen_at(cur);
                        final(store)@[cur] == if oldg.refs == 1 {
                            None::<Gen<T>>
                        } else {
                            Some(Gen { data: oldg.data, refs: (oldg.refs - 1) as nat })
                        }
                    }
            },
    {
        let entries = self.entries;
        let ghost ops = entries@;
        let n = entries.len();
        let order = sort_order(&entries, cells);

        // acquire a write permit on every target, in identity order
        let mut permits: Vec<(usize, <A as AtomicAccessControl>::WriteGuard)> = Vec::new();
        let mut j: usize = 0;
        while j < n
            invariant
                j <= n,
                permits@.len() == j,
                cells@.len() == old(cells)@.len(),
                store@ == old(store)@,
                forall|i: int|
                    0 <= i < old(cells)@.len() && !tx_touches(ops, i) ==> cells@[i] == old(
                        cells,
                    )@[i],
                forall|jj: int|
                    0 <= jj < j ==> #[trigger] permits@[jj].0 == ops[order@[jj] as int].0,
                forall|jj: int|
                    0 <= jj < j ==> {
                        let ci = ops[#[trigger] order@[jj] as int].0 as int;
                        &&& same_cell_core(cells@[ci], old(cells)@[ci])
                        &&& cells@[ci].control.wf()
                        &&& cells@[ci].control.writing()
                        &&& cells@[ci].control.write_guard_for(&permits@[jj].1)
                    },
                forall|jj: int|
                    j <= jj < n ==> {
                        let ci = ops[#[trigger] order@[jj] as int].0 as int;
                        cells@[ci] == old(cells)@[ci]
                    },
            decreases n - j,
        {
            let k = order[j];
            let ci = entries[k].0;
            let c = &mut cells[ci];
            let g = c.control.write();
            permits.push((ci, g));
            j = j + 1;
        }

        // apply each update and install its generation, in the same order
        let mut rec: Vec<(usize, usize)> = Vec::new();
        let mut ok = true;
        let ghost mut failk: int = 0;
        let mut j2: usize = 0;
        while ok && j2 < n
            invariant
                j2 <= n,
                rec@.len() == j2,
                permits@.len() == n,
                cells@.len() == old(cells)@.len(),
                store@.len() == old(store)@.len() + j2,
                forall|i: int| 0 <= i < old(store)@.len() ==> store@[i] == old(store)@[i],
                forall|i: int|
                    0 <= i < old(cells)@.len() && !tx_touches(ops, i) ==> cells@[i] == old(
                        cells,
                    )@[i],
                forall|jj: int|
                    0 <= jj < n ==> #[trigger] permits@[jj].0 == ops[order@[jj] as int].0,
                forall|jj: int|
                    0 <= jj < j2 ==> {
                        let k = #[trigger] order@[jj] as int;
                        let ci = ops[k].0 as int;
                        let newv_opt = ops[k].1.spec_apply(old(cells)@[ci].value(*old(store)));
                        &&& rec@[jj].0 == ops[k].0
                        &&& rec@[jj].1 as int == old(cells)@[ci].current()
                        &&& newv_opt is Some
                        &&& cells@[ci].current() == old(store)@.len() + jj
                        &&& cells@[ci].spec_id() == old(cells)@[ci].spec_id()
                        &&& cells@[ci].history() == old(cells)@[ci].history().push(newv_opt->Some_0)
                        &&& store@[old(store)@.len() + jj] == Some(
                            Gen { data: newv_opt->Some_0, refs: 1nat },
                        )
                        &&& cells@[ci].control.wf()
                        &&& cells@[ci].control.writing()
                        &&& cells@[ci].control.write_guard_for(&permits@[jj].1)
                    },
                forall|jj: int|
                    j2 <= jj < n ==> {
                        let ci = ops[#[trigger] order@[jj] as int].0 as int;
                        &&& same_cell_core(cells@[ci], old(cells)@[ci])
                        &&& cells@[ci].control.wf()
                        &&& cells@[ci].control.writing()
                        &&& cells@[ci].control.write_guard_for(&permits@[jj].1)
                    },
                !ok ==> 0 <= failk < n && ops[failk].1.spec_apply(
                    old(cells)@[ops[failk].0 as int].value(*old(store)),
                ) is None,
            decreases n - j2,
        {
            let k = order[j2];
            let ci = entries[k].0;
            let cur = cells[ci].current;
            match entries[k].1.apply(store.borrow_data(cur)) {
                Some(nv) => {
                    let ghost gnv = nv;
                    let new_idx = ValueRefInner::raw(nv, store);
                    let c = &mut cells[ci];
                    rec.push((ci, cur));
                    c.current = new_idx;
                    proof {
                        c.hist@ = c.hist@.push(gnv);
                    }
                    j2 = j2 + 1;
                },
                None => {
                    ok = false;
                    proof {
                        failk = k as int;
                    }
                    break ;
                },
            }
        }

        if !ok {
            // roll back: restore each installed cell and destroy its new
            // generation
            let mut t = rec.len();
            while t > 0
                invariant
                    t <= rec@.len(),
                    rec@.len() <= n,
                    permits@.len() == n,
                    cells@.len() == old(cells)@.len(),
                    store@.len() == old(store)@.len() + rec@.len(),
                    forall|i: int| 0 <= i < old(store)@.len() ==> store@[i] == old(store)@[i],
                    forall|i: int|
                        0 <= i < old(cells)@.len() && !tx_touches(ops, i) ==> cells@[i] == old(
                            cells,
                        )@[i],
                    forall|jj: int|
                        0 <= jj < n ==> #[trigger] permits@[jj].0 == ops[order@[jj] as int].0,
                    forall|jj: int|
                        0 <= jj < t ==> {
                            let k = #[trigger] order@[jj] as int;
                            let ci = ops[k].0 as int;
                            let newv_opt = ops[k].1.spec_apply(old(cells)@[ci].value(*old(store)));
                            &&& rec@[jj].0 == ops[k].0
                            &&& rec@[jj].1 as int == old(cells)@[ci].current()
                            &&& newv_opt is Some
                            &&& cells@[ci].current() == old(store)@.len() + jj
                            &&& cells@[ci].spec_id() == old(cells)@[ci].spec_id()
                            &&& cells@[ci].history() == old(cells)@[ci].history().push(
                                newv_opt->Some_0,
                            )
                            &&& store@[old(store)@.len() + jj] == Some(
                                Gen { data: newv_opt->Some_0, refs: 1nat },
                            )
                            &&& cells@[ci].control.wf()
                            &&& cells@[ci].control.writing()
                            &&& cells@[ci].control.write_guard_for(&permits@[jj].1)
                        },
                    forall|jj: int|
                        t <= jj < rec@.len() ==> (#[trigger] store@[old(store)@.len() + jj]) is None,
                    forall|jj: int|
                        t <= jj < n ==> {
                            let ci = ops[#[trigger] order@[jj] as int].0 as int;
                            &&& same_cell_core(cells@[ci], old(cells)@[ci])
                            &&& cells@[ci].control.wf()
                            &&& cells@[ci].control.writing()
                            &&& cells@[ci].control.write_guard_for(&permits@[jj].1)
                        },
                decreases t,
            {
                t = t - 1;
                let (ci, oldcur) = rec[t];
                proof {
                    assert(ci as int == ops[order@[t as int] as int].0 as int);
                }
                let c = &mut cells[ci];
                let newcur = c.current;
                c.current = oldcur;
                proof {
                    c.hist@ = c.hist@.drop_last();
                    assert(c.hist@ =~= old(cells)@[ci as int].history());
                }
                store.dec_refs(newcur);
            }

            proof {
                assert forall|i: int|
                    old(store)@.len() <= i < store@.len() implies store@[i] is None by {
                    assert(store@[old(store)@.len() + (i - old(store)@.len())] is None);
                }
            }
            // give every permit back, newest first
            let mut t2 = permits.len();
            while t2 > 0
                invariant
                    t2 <= n,
                    permits@.len() == t2,
                    cells@.len() == old(cells)@.len(),
                    store@.len() >= old(store)@.len(),
                    forall|i: int| 0 <= i < old(store)@.len() ==> store@[i] == old(store)@[i],
                    forall|i: int|
                        old(store)@.len() <= i < store@.len() ==> store@[i] is None,
                    forall|i: int|
                        0 <= i < old(cells)@.len() && !tx_touches(ops, i) ==> cells@[i] == old(
                            cells,
                        )@[i],
                    forall|jj: int|
                        0 <= jj < t2 ==> #[trigger] permits@[jj].0 == ops[order@[jj] as int].0,
                    forall|jj: int|
                        0 <= jj < t2 ==> {
                            let ci = ops[#[trigger] order@[jj] as int].0 as int;
                            &&& same_cell_core(cells@[ci], old(cells)@[ci])
                            &&& cells@[ci].control.wf()
                            &&& cells@[ci].control.writing()
                            &&& cells@[ci].control.write_guard_for(&permits@[jj].1)
                        },
                    forall|jj: int|
                        t2 <= jj < n ==> {
                            let ci = ops[#[trigger] order@[jj] as int].0 as int;
                            &&& same_cell_core(cells@[ci], old(cells)@[ci])
                            &&& cells@[ci].control.wf()
                            &&& cells@[ci].control.idle()
                        },
                decreases t2,
            {
                t2 = t2 - 1;
                let (ci, g) = permits.pop().unwrap();
                let c = &mut cells[ci];
                c.control.end_write(g);
            }
            proof {
                assert forall|k: int| 0 <= k < ops.len() implies {
                    let ci = #[trigger] ops[k].0 as int;
                    &&& same_cell_core(cells@[ci], old(cells)@[ci])
                    &&& cells@[ci].wf(*store)
                } by {
                    assert(order@.contains(k as usize));
                    let jj = choose|jj: int| 0 <= jj < order@.len() && order@[jj] == k as usize;
                    assert(ops[order@[jj] as int].0 as int == ops[k].0 as int);
                }
            }
            return false;
        }

        // committed: give the permits back, then release the old
        // generations
        let mut t2 = permits.len();
        while t2 > 0
            invariant
                t2 <= n,
                rec@.len() == n,
                permits@.len() == t2,
                cells@.len() == old(cells)@.len(),
                store@.len() == old(store)@.len() + n,
                forall|i: int| 0 <= i < old(store)@.len() ==> store@[i] == old(store)@[i],
                forall|i: int|
                    0 <= i < old(cells)@.len() && !tx_touches(ops, i) ==> cells@[i] == old(
                        cells,
                    )@[i],
                forall|jj: int|
                    0 <= jj < t2 ==> #[trigger] permits@[jj].0 == ops[order@[jj] as int].0,
                forall|jj: int|
                    0 <= jj < n ==> {
                        let k = #[trigger] order@[jj] as int;
                        let ci = ops[k].0 as int;
                        let newv_opt = ops[k].1.spec_apply(old(cells)@[ci].value(*old(store)));
                        &&& rec@[jj].0 == ops[k].0
                        &&& rec@[jj].1 as int == old(cells)@[ci].current()
                        &&& newv_opt is Some
                        &&& cells@[ci].current() == old(store)@.len() + jj
                        &&& cells@[ci].spec_id() == old(cells)@[ci].spec_id()
                        &&& cells@[ci].history() == old(cells)@[ci].history().push(newv_opt->Some_0)
                        &&& store@[old(store)@.len() + jj] == Some(
                            Gen { data: newv_opt->Some_0, refs: 1nat },
                        )
                        &&& cells@[ci].control.wf()
                    },
                forall|jj: int|
                    0 <= jj < t2 ==> {
                        let ci = ops[#[trigger] order@[jj] as int].0 as int;
                        &&& cells@[ci].control.writing()
                        &&& cells@[ci].control.write_guard_for(&permits@[jj].1)
                    },
                forall|jj: int|
                    t2 <= jj < n ==> {
                        let ci = ops[#[trigger] order@[jj] as int].0 as int;
                        cells@[ci].control.idle()
                    },
            decreases t2,
        {
            t2 = t2 - 1;
            let (ci, g) = permits.pop().unwrap();
            let c = &mut cells[ci];
            c.control.end_write(g);
        }

        let mut t: usize = 0;
        while t < n
            invariant
                t <= n,
                rec@.len() == n,
                cells@.len() == old(cells)@.len(),
                store@.len() == old(store)@.len() + n,
                forall|i: int|
                    0 <= i < old(cells)@.len() && !tx_touches(ops, i) ==> cells@[i] == old(
                        cells,
                    )@[i],
                forall|jj: int|
                    0 <= jj < n ==> {
                        let k = #[trigger] order@[jj] as int;
                        let ci = ops[k].0 as int;
                        let newv_opt = ops[k].1.spec_apply(old(cells)@[ci].value(*old(store)));
                        &&& rec@[jj].0 == ops[k].0
                        &&& rec@[jj].1 as int == old(cells)@[ci].current()
                        &&& newv_opt is Some
                        &&& cells@[ci].current() == old(store)@.len() + jj
                        &&& cells@[ci].spec_id() == old(cells)@[ci].spec_id()
                        &&& cells@[ci].history() == old(cells)@[ci].history().push(newv_opt->Some_0)
                        &&& store@[old(store)@.len() + jj] == Some(
                            Gen { data: newv_opt->Some_0, refs: 1nat },
                        )
                        &&& cells@[ci].control.wf()
                        &&& cells@[ci].control.idle()
                    },
                forall|i: int|
                    0 <= i < old(store)@.len() && !tx_old_current(ops, old(cells)@, i)
                        ==> store@[i] == old(store)@[i],
                forall|jj: int|
                    t <= jj < n ==> {
                        let cur = old(cells)@[ops[#[trigger] order@[jj] as int].0 as int].current();
                        store@[cur] == old(store)@[cur]
                    },
                forall|jj: int|
                    0 <= jj < t ==> {
                        let cur = old(cells)@[ops[#[trigger] order@[jj] as int].0 as int].current();
                        let oldg = old(store).gen_at(cur);
                        store@[cur] == if oldg.refs == 1 {
                            None::<Gen<T>>
                        } else {
                            Some(Gen { data: oldg.data, refs: (oldg.refs - 1) as nat })
                        }
                    },
            decreases n - t,
        {
            let (_ci, oldcur) = rec[t];
            proof {
                let k = order@[t as int] as int;
                assert(rec@[t as int].0 == ops[k].0);
                assert(rec@[t as int].1 as int == old(cells)@[ops[k].0 as int].current());
            }
            store.dec_refs(oldcur);
            t = t + 1;
        }

        proof {
            assert forall|k: int| 0 <= k < ops.len() implies {
                let ci = #[trigger] ops[k].0 as int;
                let newv_opt = ops[k].1.spec_apply(old(cells)@[ci].value(*old(store)));
                let newv = newv_opt->Some_0;
                &&& newv_opt is Some
                &&& cells@[ci].spec_id() == old(cells)@[ci].spec_id()
                &&& cells@[ci].wf(*store)
                &&& old(store)@.len() <= cells@[ci].current() < store@.len()
                &&& cells@[ci].value(*store) == newv
                &&& cells@[ci].history() == old(cells)@[ci].history().push(newv)
                &&& {
                    let cur = old(cells)@[ci].current();
                    let oldg = old(store).gen_at(cur);
                    store@[cur] == if oldg.refs == 1 {
                        None::<Gen<T>>
                    } else {
                        Some(Gen { data: oldg.data, refs: (oldg.refs - 1) as nat })
                    }
                }
            } by {
                assert(order@.contains(k as usize));
                let jj = choose|jj: int| 0 <= jj < order@.len() && order@[jj] == k as usize;
                assert(ops[order@[jj] as int].0 as int == ops[k].0 as int);
            }
        }
        true
    }
}

/// Write convergence: a history produced by increment-by-one updates ends
/// at its first value plus the number of updates applied. However many
/// writers contributed them, the increments compose, so a cell
/// initialised to zero that took a given number of increments reads as
/// that number.
pub proof fn lemma_write_convergence(hist: Seq<u64>)
    requires
        hist.len() >= 1,
        forall|i: int| 0 <= i < hist.len() - 1 ==> hist[i + 1] == #[trigger] hist[i] + 1,
    ensures
        hist.last() == hist.first() + hist.len() - 1,
    decreases hist.len(),
{
    if hist.len() > 1 {
        let pre = hist.drop_last();
        assert forall|i: int| 0 <= i < pre.len() - 1 implies pre[i + 1] == #[trigger] pre[i] + 1 by {
            assert(hist[i + 1] == hist[i] + 1);
        }
        lemma_write_convergence(pre);
        assert(hist[hist.len() - 2 + 1] == hist[hist.len() - 2] + 1);
    }
}

/// In a history where no update ever lowers the value, any earlier entry
/// is at most any later one.
pub proof fn lemma_history_sorted(hist: Seq<u64>, i: int, j: int)
    requires
        forall|k: int| 0 <= k < hist.len() - 1 ==> #[trigger] hist[k] <= hist[k + 1],
        0 <= i <= j < hist.len(),
    ensures
        hist[i] <= hist[j],
    decreases j - i,
{
    if i < j {
        lemma_history_sorted(hist, i, j - 1);
        assert(hist[j - 1] <= hist[j - 1 + 1]);
    }
}

/// Monotonic reads under monotonic writes: when every update leaves the
/// value no smaller, a reader whose observations come from ever-later
/// points of the history sees a non-decreasing sequence of values.
pub proof fn lemma_monotonic_reads(hist: Seq<u64>, obs: Seq<int>)
    requires
        forall|k: int| 0 <= k < hist.len() - 1 ==> #[trigger] hist[k] <= hist[k + 1],
        forall|k: int| 0 <= k < obs.len() ==> 0 <= #[trigger] obs[k] < hist.len(),
        forall|k: int| 0 <= k < obs.len() - 1 ==> #[trigger] obs[k] <= obs[k + 1],
    ensures
        forall|k: int| 0 <= k < obs.len() - 1 ==> hist[#[trigger] obs[k]] <= hist[obs[k + 1]],
{
    assert forall|k: int| 0 <= k < obs.len() - 1 implies hist[#[trigger] obs[k]] <= hist[obs[k
        + 1]] by {
        lemma_history_sorted(hist, obs[k], obs[k + 1]);
    }
}

/// A transfer between two cells holding unsigned funds: the deposit side
/// adds an amount, the withdrawal side subtracts the same amount and
/// declines — aborting the transaction — when the funds do not cover it.
pub enum TransferOp {
    Deposit(u32),
    Withdraw(u32),
}

impl TxUpdate<u32> for TransferOp {
    open spec fn spec_apply(&self, v: u32) -> Option<u32> {
        match *self {
            TransferOp::Deposit(amount) => if v + amount <= u32::MAX {
                Some((v + amount) as u32)
            } else {
                None
            },
            TransferOp::Withdraw(amount) => if v >= amount {
                Some((v - amount) as u32)
            } else {
                None
            },
        }
    }

    fn apply(&self, v: &u32) -> (r: Option<u32>) {
        match *self {
            TransferOp::Deposit(amount) => if amount <= u32::MAX - *v {
                Some(*v + amount)
            } else {
                None
            },
            TransferOp::Withdraw(amount) => if *v >= amount {
                Some(*v - amount)
            } else {
                None
            },
        }
    }
}

/// Transaction atomicity, as conservation: when both sides of a transfer
/// admit their update, the funds only move — the new values sum to the
/// old sum. A transaction that aborts instead leaves every cell
/// unchanged, so across any number of transfers between two cells the
/// total funds are conserved.
pub proof fn lemma_transfer_conserves(a0: u32, b0: u32, amount: u32)
    requires
        TransferOp::Withdraw(amount).spec_apply(a0) is Some,
        TransferOp::Deposit(amount).spec_apply(b0) is Some,
    ensures
        TransferOp::Withdraw(amount).spec_apply(a0)->Some_0 + TransferOp::Deposit(
            amount,
        ).spec_apply(b0)->Some_0 == a0 + b0,
{
}

} // verus!
