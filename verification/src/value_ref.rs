//! Value generations and snapshot handles.
//!
//! A value generation is an immutable record holding one value of the cell
//! together with its reference count. The count is the number of live
//! snapshot handles on the generation, plus one while the generation is
//! installed in a cell. A snapshot handle is a read-only view of one
//! generation; it stays valid, observing the same value, until it is
//! released, however many writes happen after it was taken.

use vstd::prelude::*;

use crate::mem::{GenStore, Gen};

verus! {

/// One value generation: the payload plus its reference count.
///
/// The count starts at one (the share of whoever allocated it) and the
/// generation is destroyed when it returns to zero.
pub struct ValueRefInner<T> {
    data: T,
    refs: u16,
}

impl<T> View for ValueRefInner<T> {
    type V = Gen<T>;

    closed spec fn view(&self) -> Gen<T> {
        Gen { data: self.data, refs: self.refs as nat }
    }
}

impl<T> ValueRefInner<T> {
    /// A fresh generation with a single reference.
    pub fn new(data: T) -> (r: Self)
        ensures
            r@.data == data,
            r@.refs == 1,
    {
        Self { data, refs: 1 }
    }

    /// Allocates a fresh generation in the store and hands back its bare
    /// index, carrying one reference that the caller now owns.
    pub fn raw(value: T, store: &mut GenStore<T>) -> (i: usize)
        requires
            old(store)@.len() < usize::MAX,
        ensures
            final(store)@ == old(store)@.push(Some(Gen { data: value, refs: 1 as nat })),
            i == old(store)@.len(),
    {
        store.allocate(ValueRefInner::new(value))
    }

    pub(crate) fn data_ref(&self) -> (r: &T)
        ensures
            *r == self@.data,
    {
        &self.data
    }

    pub(crate) fn refs_value(&self) -> (r: u16)
        ensures
            r as nat == self@.refs,
    {
        self.refs
    }

    pub(crate) fn add_ref(&mut self)
        requires
            old(self)@.refs < 0xFFFF,
        ensures
            final(self)@.data == old(self)@.data,
            final(self)@.refs == old(self)@.refs + 1,
    {
        self.refs = self.refs + 1;
    }

    pub(crate) fn remove_ref(&mut self)
        requires
            old(self)@.refs >= 1,
        ensures
            final(self)@.data == old(self)@.data,
            final(self)@.refs == old(self)@.refs - 1,
    {
        self.refs = self.refs - 1;
    }
}

/// A snapshot handle: a reference-counted, read-only view of one generation.
///
/// The handle records, in ghost state, the value it observed when it was
/// taken; `get` always returns that value. Releasing the handle gives its
/// reference back to the store, destroying the generation when it was the
/// last one.
pub struct ValueRef<T> {
    inner: usize,
    observed: Ghost<T>,
}

impl<T> ValueRef<T> {
    /// The index of the generation this handle refers to.
    pub closed spec fn idx(self) -> int {
        self.inner as int
    }

    /// The value this handle observed when it was taken.
    pub closed spec fn observed(self) -> T {
        self.observed@
    }

    /// The handle refers to a live generation of the store that still holds
    /// the value the handle observed.
    pub open spec fn valid(self, store: GenStore<T>) -> bool {
        &&& store.live(self.idx())
        &&& store.gen_at(self.idx()).data == self.observed()
        &&& store.gen_at(self.idx()).refs >= 1
    }

    /// Takes a new reference on the generation at `inner`, as a handle.
    pub fn from(inner: usize, store: &mut GenStore<T>) -> (h: ValueRef<T>)
        requires
            old(store).live(inner as int),
            old(store).gen_at(inner as int).refs < 0xFFFF,
        ensures
            final(store)@ == old(store)@.update(
                inner as int,
                Some(Gen {
                    data: old(store).gen_at(inner as int).data,
                    refs: old(store).gen_at(inner as int).refs + 1,
                }),
            ),
            h.idx() == inner as int,
            h.observed() == old(store).gen_at(inner as int).data,
            h.valid(*final(store)),
    {
        store.inc_refs(inner);
        let observed = Ghost(store.gen_at(inner as int).data);
        ValueRef { inner, observed }
    }

    /// The observed value. Stable for the whole lifetime of the handle,
    /// independent of any writes to the cell the snapshot was taken from.
    pub fn get<'a>(&self, store: &'a GenStore<T>) -> (r: &'a T)
        requires
            self.valid(*store),
        ensures
            *r == self.observed(),
            *r == store.gen_at(self.idx()).data,
    {
        store.borrow_data(self.inner)
    }

    /// A second handle on the same generation, raising its reference count.
    pub fn duplicate(&self, store: &mut GenStore<T>) -> (h: ValueRef<T>)
        requires
            self.valid(*old(store)),
            old(store).gen_at(self.idx()).refs < 0xFFFF,
        ensures
            final(store)@ == old(store)@.update(
                self.idx(),
                Some(Gen {
                    data: old(store).gen_at(self.idx()).data,
                    refs: old(store).gen_at(self.idx()).refs + 1,
                }),
            ),
            h.idx() == self.idx(),
            h.observed() == self.observed(),
            h.valid(*final(store)),
            self.valid(*final(store)),
    {
        store.inc_refs(self.inner);
        ValueRef { inner: self.inner, observed: self.observed }
    }

    /// Gives the handle's reference back; destroys the generation when this
    /// was the last reference.
    pub fn release(self, store: &mut GenStore<T>) -> (freed: bool)
        requires
            self.valid(*old(store)),
        ensures
            freed <==> old(store).gen_at(self.idx()).refs == 1,
            final(store)@ == if freed {
                old(store)@.update(self.idx(), None::<Gen<T>>)
            } else {
                old(store)@.update(
                    self.idx(),
                    Some(Gen {
                        data: old(store).gen_at(self.idx()).data,
                        refs: (old(store).gen_at(self.idx()).refs - 1) as nat,
                    }),
                )
            },
    {
        store.dec_refs(self.inner)
    }
}

/// One write of a cell, seen on the store: a fresh generation holding
/// `nv` is pushed as the new current, and the old current loses the
/// cell's reference — destroyed when that was the last one.
pub open spec fn write_shape_with<T>(
    pre: Seq<Option<Gen<T>>>,
    cur: int,
    post: Seq<Option<Gen<T>>>,
    newcur: int,
    nv: T,
) -> bool {
    &&& 0 <= cur < pre.len()
    &&& pre[cur] is Some
    &&& newcur == pre.len()
    &&& post == if pre[cur]->Some_0.refs == 1 {
        pre.push(Some(Gen { data: nv, refs: 1nat })).update(cur, None::<Gen<T>>)
    } else {
        pre.push(Some(Gen { data: nv, refs: 1nat })).update(
            cur,
            Some(Gen { data: pre[cur]->Some_0.data, refs: (pre[cur]->Some_0.refs - 1) as nat }),
        )
    }
}

/// One write of a cell, for some new value.
pub open spec fn write_shape<T>(
    pre: Seq<Option<Gen<T>>>,
    cur: int,
    post: Seq<Option<Gen<T>>>,
    newcur: int,
) -> bool {
    exists|nv: T| #[trigger] write_shape_with(pre, cur, post, newcur, nv)
}

/// A write keeps the accounts: the cell's reference moves from the old
/// generation — destroying it when it was the last — to the fresh one.
pub proof fn lemma_accounted_write<T>(
    s: Seq<Option<Gen<T>>>,
    owners: vstd::multiset::Multiset<int>,
    cur: int,
    newcur: int,
    post: Seq<Option<Gen<T>>>,
    nv: T,
)
    requires
        crate::mem::accounted(s, owners),
        owners.count(cur) >= 1,
        write_shape_with(s, cur, post, newcur, nv),
    ensures
        crate::mem::accounted(post, owners.remove(cur).insert(newcur)),
{
    crate::mem::lemma_accounted_allocate(s, owners, nv);
    let pushed = s.push(Some(Gen { data: nv, refs: 1nat }));
    crate::mem::lemma_accounted_dec(pushed, owners.insert(s.len() as int), cur);
    assert(owners.insert(s.len() as int).remove(cur) =~= owners.remove(cur).insert(newcur));
}

/// Snapshot independence: a snapshot handle taken before any number of
/// writes still observes its original value after all of them. The handle
/// must hold one reference of its own — and where its generation is still
/// the cell's current one, the cell holds another — so no write's release
/// of the old generation can destroy what the handle observes.
pub proof fn lemma_snapshot_independence<T>(
    h: ValueRef<T>,
    stores: Seq<Seq<Option<Gen<T>>>>,
    curs: Seq<int>,
)
    requires
        stores.len() == curs.len(),
        stores.len() >= 1,
        0 <= h.idx() < stores[0].len(),
        stores[0][h.idx()] is Some,
        stores[0][h.idx()]->Some_0.data == h.observed(),
        stores[0][h.idx()]->Some_0.refs >= 1,
        h.idx() == curs[0] ==> stores[0][h.idx()]->Some_0.refs >= 2,
        forall|k: int|
            0 <= k < stores.len() - 1 ==> #[trigger] write_shape(
                stores[k],
                curs[k],
                stores[k + 1],
                curs[k + 1],
            ),
    ensures
        0 <= h.idx() < stores.last().len(),
        stores.last()[h.idx()] is Some,
        stores.last()[h.idx()]->Some_0.data == h.observed(),
        stores.last()[h.idx()]->Some_0.refs >= 1,
    decreases stores.len(),
{
    if stores.len() > 1 {
        assert(0 <= 0 < stores.len() - 1);
        assert(write_shape(stores[0], curs[0], stores[0int + 1], curs[0int + 1]));
        let nv = choose|nv: T| write_shape_with(stores[0], curs[0], stores[1], curs[1], nv);
        assert(curs[1] == stores[0].len());
        assert(stores[1][h.idx()] is Some && stores[1][h.idx()]->Some_0.data == h.observed()
            && stores[1][h.idx()]->Some_0.refs >= 1);
        let stores2 = stores.drop_first();
        let curs2 = curs.drop_first();
        assert forall|k: int| 0 <= k < stores2.len() - 1 implies #[trigger] write_shape(
            stores2[k],
            curs2[k],
            stores2[k + 1],
            curs2[k + 1],
        ) by {
            assert(stores2[k] == stores[k + 1] && stores2[k + 1] == stores[k + 2]);
            assert(curs2[k] == curs[k + 1] && curs2[k + 1] == curs[k + 2]);
        }
        assert(h.idx() != curs2[0]);
        lemma_snapshot_independence(h, stores2, curs2);
        assert(stores2.last() == stores.last());
    }
}

} // verus!
